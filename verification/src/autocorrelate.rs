use crate::block::lag_of;
use crate::block::lemma_product_bounded;
use crate::block::lemma_scale_bound;
use crate::block::samples_bounded;
use crate::block::BlockData;
use crate::block::BLOCK_SIZE_LIMIT;
use crate::block::CORRELATION_LIMIT;
use crate::block::SAMPLE_LIMIT;
use vstd::prelude::*;

verus! {

/// Largest value a product of two admissible samples can take:
/// `SAMPLE_LIMIT * SAMPLE_LIMIT`.
pub(crate) const SAMPLE_PRODUCT_LIMIT: i128 = 0x1000_0000_0000_0000;

/// The inner product of a signal with itself shifted by `lag`, over the
/// first `n` aligned sample pairs: the sum of `s[t] * s[t + lag]` for
/// `t` below `n`.
pub open spec fn dot_prefix(s: Seq<i64>, lag: int, n: int) -> int
    decreases n,
{
    if n <= 0 {
        0
    } else {
        dot_prefix(s, lag, n - 1) + s[n - 1] * s[n - 1 + lag]
    }
}

/// Computes the unnormalized autocorrelation of the signal for every lag
/// from 0 through `model_order`: `correlation[i]` becomes the inner product
/// of the signal with itself shifted by `i`, over the `block_size - i`
/// aligned sample pairs.
pub fn autocorrelate(block: &mut BlockData)
    requires
        old(block).well_formed(),
        samples_bounded(old(block).signal@, SAMPLE_LIMIT as int),
    ensures
        final (block).well_formed(),
        forall|i: int|
            0 <= i <= old(block).model_order ==> final (block).correlation@[i] == dot_prefix(
                old(block).signal@,
                i,
                old(block).block_size - i,
            ),
        forall|i: int|
            0 <= i <= old(block).model_order
                ==> -CORRELATION_LIMIT <= #[trigger] final (block).correlation@[i]
                <= CORRELATION_LIMIT,
        final (block).block_size == old(block).block_size,
        final (block).model_order == old(block).model_order,
        final (block).frequency_bins == old(block).frequency_bins,
        final (block).sample_rate == old(block).sample_rate,
        final (block).signal == old(block).signal,
        final (block).input == old(block).input,
        final (block).target == old(block).target,
        final (block).toeplitz_indices == old(block).toeplitz_indices,
        final (block).toeplitz == old(block).toeplitz,
        final (block).formant_indices == old(block).formant_indices,
        final (block).formant_count == old(block).formant_count,
{
    let n = block.block_size;
    let p = block.model_order + 1;
    let mut i: usize = 0;
    while i < p
        invariant
            i <= p,
            p == block.model_order + 1,
            n == block.block_size,
            block.well_formed(),
            samples_bounded(block.signal@, SAMPLE_LIMIT as int),
            forall|t: int|
                0 <= t < i ==> block.correlation@[t] == dot_prefix(block.signal@, t, n - t),
            forall|t: int|
                0 <= t < i ==> -CORRELATION_LIMIT <= #[trigger] block.correlation@[t]
                    <= CORRELATION_LIMIT,
            block.block_size == old(block).block_size,
            block.model_order == old(block).model_order,
            block.frequency_bins == old(block).frequency_bins,
            block.sample_rate == old(block).sample_rate,
            block.signal == old(block).signal,
            block.input == old(block).input,
            block.target == old(block).target,
            block.toeplitz_indices == old(block).toeplitz_indices,
            block.toeplitz == old(block).toeplitz,
            block.formant_indices == old(block).formant_indices,
            block.formant_count == old(block).formant_count,
        decreases p - i,
    {
        let count = n - i;
        let mut acc: i128 = 0;
        let mut t: usize = 0;
        while t < count
            invariant
                t <= count,
                count == n - i,
                i < p,
                p == block.model_order + 1,
                n == block.block_size,
                n == block.signal.len(),
                n <= BLOCK_SIZE_LIMIT,
                samples_bounded(block.signal@, SAMPLE_LIMIT as int),
                acc == dot_prefix(block.signal@, i as int, t as int),
                -(t * SAMPLE_PRODUCT_LIMIT) <= acc <= t * SAMPLE_PRODUCT_LIMIT,
            decreases count - t,
        {
            let a = block.signal[t + i];
            let b = block.signal[t];
            proof {
                lemma_product_bounded(a as int, b as int, SAMPLE_LIMIT as int);
                lemma_scale_bound(t + 1, BLOCK_SIZE_LIMIT as int, SAMPLE_PRODUCT_LIMIT as int);
                lemma_scale_bound(t as int, BLOCK_SIZE_LIMIT as int, SAMPLE_PRODUCT_LIMIT as int);
            }
            proof {
                assert(dot_prefix(block.signal@, i as int, t + 1) == dot_prefix(
                    block.signal@,
                    i as int,
                    t as int,
                ) + block.signal@[t as int] * block.signal@[t + i]);
            }
            acc = acc + (a as i128) * (b as i128);
            t = t + 1;
        }
        proof {
            lemma_scale_bound(count as int, BLOCK_SIZE_LIMIT as int, SAMPLE_PRODUCT_LIMIT as int);
        }
        block.correlation[i] = acc;
        i = i + 1;
    }
}

/// An all-zero signal has a zero inner product at every lag.
pub proof fn lemma_zero_signal_zero_autocorrelation(s: Seq<i64>, lag: int, n: int)
    requires
        0 <= lag,
        n + lag <= s.len(),
        forall|k: int| 0 <= k < s.len() ==> #[trigger] s[k] == 0,
    ensures
        dot_prefix(s, lag, n) == 0,
    decreases n,
{
    if n > 0 {
        lemma_zero_signal_zero_autocorrelation(s, lag, n - 1);
    }
}

/// Law: from an all-zero signal, the autocorrelation sequence is all-zero,
/// and the Toeplitz matrix assembled from it through the Yule-Walker input
/// vector is all-zero, hence singular. The arguments are related exactly as
/// the pipeline stages relate them: each lag is the shifted inner product
/// of the signal, the input vector copies the lags, and each matrix cell
/// copies the input entry at the lag `|row - col|`.
pub proof fn lemma_zero_signal_zero_toeplitz(
    s: Seq<i64>,
    corr: Seq<i128>,
    inp: Seq<i128>,
    toep: Seq<i128>,
    m: int,
    n: int,
)
    requires
        1 <= m < n,
        n == s.len(),
        forall|k: int| 0 <= k < s.len() ==> #[trigger] s[k] == 0,
        forall|i: int| 0 <= i <= m ==> #[trigger] corr[i] == dot_prefix(s, i, n - i),
        forall|i: int| 0 <= i < m ==> #[trigger] inp[i] == corr[i],
        forall|r: int, c: int|
            0 <= r < m && 0 <= c < m ==> #[trigger] toep[r * m + c] == inp[lag_of(r, c)],
    ensures
        forall|i: int| 0 <= i <= m ==> #[trigger] corr[i] == 0,
        forall|r: int, c: int| 0 <= r < m && 0 <= c < m ==> #[trigger] toep[r * m + c] == 0,
{
    assert forall|i: int| 0 <= i <= m implies #[trigger] corr[i] == 0 by {
        lemma_zero_signal_zero_autocorrelation(s, i, n - i);
    }
}

/// A constant signal of value `v` has the inner product `n * v * v` over
/// `n` aligned pairs at any lag.
pub proof fn lemma_constant_signal_autocorrelation(s: Seq<i64>, v: int, lag: int, n: int)
    requires
        0 <= lag,
        0 <= n,
        n + lag <= s.len(),
        forall|k: int| 0 <= k < s.len() ==> #[trigger] s[k] == v,
    ensures
        dot_prefix(s, lag, n) == n * (v * v),
        dot_prefix(s, lag, n) >= 0,
    decreases n,
{
    if n == 0 {
        assert(0 * (v * v) == 0);
    } else {
        lemma_constant_signal_autocorrelation(s, v, lag, n - 1);
        assert(dot_prefix(s, lag, n) == (n - 1) * (v * v) + v * v);
        assert((n - 1) * (v * v) + v * v == n * (v * v)) by (nonlinear_arith);
        assert(n * (v * v) >= 0) by (nonlinear_arith)
            requires
                n >= 0,
        ;
    }
}

/// Law: a constant signal's autocorrelation sequence, as the pipeline
/// stores it, never grows in magnitude with the lag. The arguments are
/// related exactly as the autocorrelator leaves them: each entry is the
/// shifted inner product of the signal with itself.
pub proof fn lemma_constant_correlation_monotone(
    s: Seq<i64>,
    corr: Seq<i128>,
    v: int,
    m: int,
    n: int,
)
    requires
        1 <= m < n,
        n == s.len(),
        forall|k: int| 0 <= k < s.len() ==> #[trigger] s[k] == v,
        forall|i: int| 0 <= i <= m ==> #[trigger] corr[i] == dot_prefix(s, i, n - i),
    ensures
        forall|i: int|
            0 <= i < m ==> vstd::math::abs(#[trigger] corr[i + 1] as int) <= vstd::math::abs(
                corr[i] as int,
            ),
{
    assert forall|i: int| 0 <= i < m implies vstd::math::abs(#[trigger] corr[i + 1] as int)
        <= vstd::math::abs(corr[i] as int) by {
        lemma_constant_signal_monotone(s, v, i);
    }
}

/// Law: for a constant signal, the autocorrelation never grows in magnitude
/// with the lag: the inner product over one fewer aligned pair is no larger
/// in absolute value.
pub proof fn lemma_constant_signal_monotone(s: Seq<i64>, v: int, lag: int)
    requires
        0 <= lag,
        lag + 1 <= s.len(),
        forall|k: int| 0 <= k < s.len() ==> #[trigger] s[k] == v,
    ensures
        vstd::math::abs(dot_prefix(s, lag + 1, s.len() - (lag + 1))) <= vstd::math::abs(
            dot_prefix(s, lag, s.len() - lag),
        ),
{
    let n1 = s.len() - lag;
    let n2 = s.len() - (lag + 1);
    lemma_constant_signal_autocorrelation(s, v, lag, n1);
    lemma_constant_signal_autocorrelation(s, v, lag + 1, n2);
    assert(n2 * (v * v) <= n1 * (v * v)) by (nonlinear_arith)
        requires
            0 <= n2 <= n1,
    ;
}

} // verus!
