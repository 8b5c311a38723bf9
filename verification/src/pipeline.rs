use crate::autocorrelate::autocorrelate;
use crate::autocorrelate::dot_prefix;
use crate::block::build_toeplitz_matrix;
use crate::block::build_vector_pair;
use crate::block::lag_of;
use crate::block::lemma_product_bounded;
use crate::block::samples_bounded;
use crate::block::BlockData;
use crate::block::SAMPLE_LIMIT;
use crate::preemphasis::div_trunc;
use crate::preemphasis::lemma_div_trunc_range;
use crate::preemphasis::preemphasis_filter;
use crate::weights::apply_hann_weights;
use vstd::prelude::*;

verus! {

/// Headroom bound on the raw samples and window weights handed to
/// `run_analysis`: it keeps the windowed, then pre-emphasized signal
/// within `SAMPLE_LIMIT` before the autocorrelation sums are taken.
pub const RAW_SAMPLE_LIMIT: i64 = 0x4000;

/// Runs every exact-arithmetic stage of one analysis pass over the block,
/// in the pipeline's order: windowing, pre-emphasis, autocorrelation, the
/// Yule-Walker vector pair, and the symmetric Toeplitz matrix. What
/// follows in a full run — solving the system for the filter coefficients
/// and reading the spectral envelope off the solved filter — works in
/// floating point and belongs to the caller.
pub fn run_analysis(block: &mut BlockData, weights: &Vec<i64>)
    requires
        old(block).well_formed(),
        weights.len() == old(block).block_size,
        samples_bounded(old(block).signal@, RAW_SAMPLE_LIMIT as int),
        samples_bounded(weights@, RAW_SAMPLE_LIMIT as int),
    ensures
        final (block).well_formed(),
        final (block).signal@[0] == old(block).signal@[0] * weights@[0],
        forall|i: int|
            1 <= i < old(block).block_size
                ==> final (block).signal@[i] == old(block).signal@[i] * weights@[i] - div_trunc(
                68 * (old(block).signal@[i - 1] * weights@[i - 1]),
                100,
            ),
        forall|i: int|
            0 <= i <= old(block).model_order ==> final (block).correlation@[i] == dot_prefix(
                final (block).signal@,
                i,
                old(block).block_size - i,
            ),
        forall|i: int|
            0 <= i < old(block).model_order
                ==> final (block).input@[i] == final (block).correlation@[i],
        forall|i: int|
            0 <= i < old(block).model_order
                ==> final (block).target@[i] == -final (block).correlation@[i + 1],
        forall|r: int, c: int|
            0 <= r < old(block).model_order && 0 <= c < old(block).model_order
                ==> final (block).toeplitz@[r * old(block).model_order + c]
                == final (block).input@[lag_of(r, c)],
        final (block).block_size == old(block).block_size,
        final (block).model_order == old(block).model_order,
        final (block).frequency_bins == old(block).frequency_bins,
        final (block).sample_rate == old(block).sample_rate,
        final (block).toeplitz_indices == old(block).toeplitz_indices,
        final (block).formant_indices == old(block).formant_indices,
        final (block).formant_count == old(block).formant_count,
{
    apply_hann_weights(block, weights);
    let ghost mid = block.signal@;
    proof {
        assert forall|k: int|
            0 <= k < mid.len() implies -0x1000_0000 <= #[trigger] mid[k] <= 0x1000_0000 by {
            lemma_product_bounded(
                old(block).signal@[k] as int,
                weights@[k] as int,
                RAW_SAMPLE_LIMIT as int,
            );
        }
        assert(samples_bounded(mid, SAMPLE_LIMIT as int));
    }
    preemphasis_filter(block);
    proof {
        assert forall|k: int|
            0 <= k < block.signal@.len() implies -SAMPLE_LIMIT <= #[trigger] block.signal@[k]
            <= SAMPLE_LIMIT by {
            if k >= 1 {
                lemma_div_trunc_range(68 * mid[k - 1], 100, 68 * 0x1000_0000int);
            }
        }
        assert(samples_bounded(block.signal@, SAMPLE_LIMIT as int));
    }
    autocorrelate(block);
    build_vector_pair(block);
    build_toeplitz_matrix(block);
}

/// Law: from an all-zero raw signal, a full exact-arithmetic analysis pass
/// leaves an all-zero signal, an all-zero autocorrelation, and an all-zero
/// Toeplitz matrix, whatever window is applied: the singular system that
/// makes the downstream solve fail.
pub proof fn lemma_zero_signal_zero_analysis(raw: Seq<i64>, w: Seq<i64>, s: Seq<i64>)
    requires
        s.len() == raw.len(),
        w.len() == raw.len(),
        forall|k: int| 0 <= k < raw.len() ==> #[trigger] raw[k] == 0,
        s.len() >= 1,
        s[0] == raw[0] * w[0],
        forall|i: int|
            1 <= i < raw.len() ==> #[trigger] s[i] == raw[i] * w[i] - div_trunc(
                68 * (raw[i - 1] * w[i - 1]),
                100,
            ),
    ensures
        forall|k: int| 0 <= k < s.len() ==> #[trigger] s[k] == 0,
        forall|lag: int, n: int| 0 <= lag && 0 <= n && n + lag <= s.len() ==> dot_prefix(s, lag, n) == 0,
{
    assert forall|k: int| 0 <= k < s.len() implies #[trigger] s[k] == 0 by {
        if k == 0 {
            assert(s[0] == 0 * w[0]);
            assert(0 * w[0] == 0) by (nonlinear_arith);
        } else {
            assert(raw[k] * w[k] == 0 && raw[k - 1] * w[k - 1] == 0) by (nonlinear_arith)
                requires
                    raw[k] == 0,
                    raw[k - 1] == 0,
            ;
        }
    }
    assert forall|lag: int, n: int|
        0 <= lag && 0 <= n && n + lag <= s.len() implies #[trigger] dot_prefix(s, lag, n) == 0 by {
        crate::autocorrelate::lemma_zero_signal_zero_autocorrelation(s, lag, n);
    }
}

} // verus!
