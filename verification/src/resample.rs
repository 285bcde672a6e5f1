//! Sample-buffer transforms applied after trimming: speeding up by
//! decimation, slowing down by repetition and sample-rate reduction by
//! sample-and-hold.

use vstd::prelude::*;
use crate::arith::{ceil_div, lemma_ceil_div_step, lemma_block_index, lemma_mod_step_back};
use vstd::arithmetic::div_mod::lemma_fundamental_div_mod;

verus! {

/// Every `m`-th sample of `buf`, starting with the first one.
pub open spec fn decimated(buf: Seq<i16>, m: nat) -> Seq<i16> {
    if m == 0 {
        Seq::empty()
    } else {
        Seq::new(ceil_div(buf.len() as int, m as int) as nat, |k: int| buf[k * m])
    }
}

/// Each sample of `buf` replaced by the last sample at an index that is a
/// multiple of `d` (sample-and-hold at `1 / d` of the rate).
pub open spec fn held(buf: Seq<i16>, d: nat) -> Seq<i16> {
    Seq::new(buf.len(), |i: int| buf[i - i % (d as int)])
}

/// Each sample of `buf` repeated `d` times in a row.
pub open spec fn repeated(buf: Seq<i16>, d: nat) -> Seq<i16> {
    Seq::new(buf.len() * d, |k: int| buf[k / (d as int)])
}

/// Speeds a buffer up `multiplier` times by keeping every
/// `multiplier`-th sample.
pub fn speed_buffer(buf: Vec<i16>, multiplier: u32) -> (new_buffer: Vec<i16>)
    requires
        multiplier > 0 || buf@.len() == 0,
    ensures
        new_buffer@ == decimated(buf@, multiplier as nat),
{
    let mut new_buffer: Vec<i16> = Vec::new();
    if buf.len() == 0 {
        proof {
            if multiplier > 0 {
                lemma_block_index(0, multiplier as int, multiplier - 1);
            }
            assert(new_buffer@ =~= decimated(buf@, multiplier as nat));
        }
        return new_buffer;
    }
    let m = multiplier as usize;
    proof {
        lemma_block_index(0, m as int, m - 1);
    }
    for i in 0..buf.len()
        invariant
            m == multiplier,
            m > 0,
            new_buffer@.len() == ceil_div(i as int, m as int),
            forall|k: int| 0 <= k < new_buffer@.len() ==> #[trigger] new_buffer@[k] == buf@[k * m],
    {
        proof {
            lemma_ceil_div_step(i as int, m as int);
        }
        if i % m == 0 {
            new_buffer.push(buf[i]);
        }
    }
    proof {
        assert(new_buffer@ =~= decimated(buf@, multiplier as nat));
    }
    new_buffer
}

/// Reduces the effective sample rate by `divider`: every sample at an
/// index that is a multiple of `divider` is held for the following
/// `divider - 1` samples.
pub fn reduce_sr_buffer(buf: Vec<i16>, divider: u32) -> (new_buffer: Vec<i16>)
    requires
        divider > 0 || buf@.len() == 0,
    ensures
        new_buffer@ == held(buf@, divider as nat),
{
    let mut new_buffer: Vec<i16> = Vec::new();
    let mut last_value: i16 = 0;
    if buf.len() == 0 {
        proof {
            assert(new_buffer@ =~= held(buf@, divider as nat));
        }
        return new_buffer;
    }
    let d = divider as usize;
    for i in 0..buf.len()
        invariant
            d == divider,
            d > 0,
            buf@.len() > 0,
            new_buffer@.len() == i,
            i > 0 ==> last_value == buf@[(i - 1) - (i - 1) % (d as int)],
            forall|k: int|
                0 <= k < i ==> #[trigger] new_buffer@[k] == buf@[k - k % (d as int)],
    {
        if i % d == 0 {
            last_value = buf[i];
        } else {
            proof {
                lemma_mod_step_back(i as int, d as int);
            }
        }
        new_buffer.push(last_value);
    }
    proof {
        assert(new_buffer@ =~= held(buf@, divider as nat));
    }
    new_buffer
}

/// Slows a buffer down `divider` times by repeating every sample `divider`
/// times.
pub fn slow_buffer(buf: Vec<i16>, divider: u32) -> (new_buffer: Vec<i16>)
    requires
        buf@.len() * divider <= usize::MAX,
    ensures
        new_buffer@ == repeated(buf@, divider as nat),
{
    let mut new_buffer: Vec<i16> = Vec::new();
    let d = divider as usize;
    assert(0 * (d as int) == 0);
    for i in 0..buf.len()
        invariant
            d == divider,
            buf@.len() * d <= usize::MAX,
            new_buffer@.len() == i * d,
            forall|k: int| 0 <= k < i * d ==> #[trigger] new_buffer@[k] == buf@[k / (d as int)],
    {
        for j in 0..d
            invariant
                d == divider,
                i < buf@.len(),
                new_buffer@.len() == i * d + j,
                forall|k: int|
                    0 <= k < i * d + j ==> #[trigger] new_buffer@[k] == buf@[k / (d as int)],
        {
            proof {
                lemma_block_index(i as int, d as int, j as int);
            }
            new_buffer.push(buf[i]);
        }
        proof {
            assert((i + 1) * d == i * d + d) by (nonlinear_arith);
        }
    }
    proof {
        assert(new_buffer@ =~= repeated(buf@, divider as nat));
    }
    new_buffer
}

/// Slowing a buffer down by `k` and speeding the result up by `k` gives
/// the buffer back.
pub proof fn lemma_speed_undoes_slow(buf: Seq<i16>, k: nat)
    requires
        k > 0,
    ensures
        decimated(repeated(buf, k), k) == buf,
{
    let slow = repeated(buf, k);
    lemma_block_index(buf.len() as int, k as int, k - 1);
    assert(buf.len() * k + k - 1 == (buf.len() as int) * (k as int) + (k - 1));
    let fast = decimated(slow, k);
    assert forall|j: int| 0 <= j < buf.len() implies #[trigger] fast[j] == buf[j] by {
        lemma_block_index(j, k as int, 0);
        assert(j * k < buf.len() * k) by (nonlinear_arith)
            requires
                0 <= j < buf.len(),
                k > 0,
        ;
    }
    assert(fast =~= buf);
}

/// Reducing the sample rate twice by the same divider is the same as
/// reducing it once.
pub proof fn lemma_reduce_sr_idempotent(buf: Seq<i16>, d: nat)
    requires
        d > 0,
    ensures
        held(held(buf, d), d) == held(buf, d),
{
    let once = held(buf, d);
    let twice = held(once, d);
    assert forall|i: int| 0 <= i < buf.len() implies #[trigger] twice[i] == once[i] by {
        lemma_fundamental_div_mod(i, d as int);
        let q = i / (d as int);
        let j = i - i % (d as int);
        assert(j == q * d) by (nonlinear_arith)
            requires
                i == (d as int) * q + i % (d as int),
                j == i - i % (d as int),
        ;
        lemma_block_index(q, d as int, 0);
        assert(0 <= i % (d as int) < d);
    }
    assert(twice =~= once);
}

/// A factor of 1 leaves a buffer unchanged under each transform.
pub proof fn lemma_unit_factor_identity(buf: Seq<i16>)
    ensures
        decimated(buf, 1) == buf,
        held(buf, 1) == buf,
        repeated(buf, 1) == buf,
{
    lemma_block_index(buf.len() as int, 1, 0);
    assert forall|i: int| 0 <= i < buf.len() implies #[trigger] decimated(buf, 1)[i] == buf[i] && held(
        buf,
        1,
    )[i] == buf[i] && repeated(buf, 1)[i] == buf[i] by {
        lemma_block_index(i, 1, 0);
    }
    assert(decimated(buf, 1) =~= buf);
    assert(held(buf, 1) =~= buf);
    assert(repeated(buf, 1) =~= buf);
}

/// Reducing the sample rate by `d` is the same as speeding up by `d`,
/// slowing the result down by `d`, and cutting it to the original length.
pub proof fn lemma_reduce_is_speed_then_slow(buf: Seq<i16>, d: nat)
    requires
        d > 0,
    ensures
        held(buf, d) == repeated(decimated(buf, d), d).take(buf.len() as int),
{
    let fast = decimated(buf, d);
    let q = ceil_div(buf.len() as int, d as int);
    lemma_fundamental_div_mod(buf.len() + d - 1, d as int);
    let r = (buf.len() + d - 1) % (d as int);
    assert(q * d >= buf.len()) by (nonlinear_arith)
        requires
            buf.len() + d - 1 == (d as int) * q + r,
            r < d,
    ;
    assert(q >= 0) by {
        lemma_ceil_div_step(0, d as int);
        assert(q >= 0) by (nonlinear_arith)
            requires
                buf.len() + d - 1 == (d as int) * q + r,
                0 <= r < d,
                d > 0,
        ;
    }
    let slow = repeated(fast, d);
    assert(slow.len() == q * d);
    let lhs = held(buf, d);
    let rhs = slow.take(buf.len() as int);
    assert forall|i: int| 0 <= i < buf.len() implies #[trigger] lhs[i] == rhs[i] by {
        lemma_fundamental_div_mod(i, d as int);
        let k = i / (d as int);
        assert(i - i % (d as int) == k * d) by (nonlinear_arith)
            requires
                i == (d as int) * k + i % (d as int),
        ;
        assert(0 <= k < q) by (nonlinear_arith)
            requires
                i == (d as int) * k + i % (d as int),
                0 <= i % (d as int) < d,
                0 <= i < buf.len(),
                q * d >= buf.len(),
                d > 0,
        ;
        assert(i < slow.len());
        assert(slow[i] == fast[k]);
    }
    assert(lhs =~= rhs);
}

/// Slowing down a concatenation is the same as concatenating the slowed
/// down parts.
pub proof fn lemma_slow_distributes_over_concat(a: Seq<i16>, b: Seq<i16>, d: nat)
    ensures
        repeated(a + b, d) == repeated(a, d) + repeated(b, d),
{
    let lhs = repeated(a + b, d);
    let rhs = repeated(a, d) + repeated(b, d);
    assert((a.len() + b.len()) * d == a.len() * d + b.len() * d) by (nonlinear_arith);
    if d > 0 {
        assert forall|k: int| 0 <= k < lhs.len() implies #[trigger] lhs[k] == rhs[k] by {
            if k < a.len() * d {
                lemma_fundamental_div_mod(k, d as int);
                let q = k / (d as int);
                assert(0 <= q < a.len()) by (nonlinear_arith)
                    requires
                        k == (d as int) * q + k % (d as int),
                        0 <= k % (d as int) < d,
                        0 <= k < a.len() * d,
                        d > 0,
                ;
            } else {
                let j = k - a.len() * d;
                lemma_fundamental_div_mod(j, d as int);
                let q = j / (d as int);
                let r = j % (d as int);
                assert(k == (a.len() + q) * d + r) by (nonlinear_arith)
                    requires
                        j == (d as int) * q + r,
                        j == k - a.len() * d,
                ;
                lemma_block_index(a.len() + q, d as int, r);
                assert(0 <= q < b.len()) by (nonlinear_arith)
                    requires
                        j == (d as int) * q + r,
                        0 <= r < d,
                        0 <= j < b.len() * d,
                        d > 0,
                ;
            }
        }
    }
    assert(lhs =~= rhs);
}

} // verus!
