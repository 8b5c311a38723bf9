use crate::block::lemma_product_bounded;
use crate::block::samples_bounded;
use crate::block::BlockData;
use crate::block::SAMPLE_LIMIT;
use vstd::prelude::*;

verus! {

/// Applies the per-sample window table to the signal in place: element `i`
/// is multiplied by `weights[i]`. The running system fills the table with
/// Hann weights once per block; the fixed-point model takes the table as
/// given and states the stage's meaning exactly: an elementwise product
/// with the existing buffer, never an assignment over it.
pub fn apply_hann_weights(block: &mut BlockData, weights: &Vec<i64>)
    requires
        old(block).well_formed(),
        weights.len() == old(block).block_size,
        samples_bounded(old(block).signal@, SAMPLE_LIMIT as int),
        samples_bounded(weights@, SAMPLE_LIMIT as int),
    ensures
        final (block).well_formed(),
        forall|i: int|
            0 <= i < old(block).block_size
                ==> final (block).signal@[i] == old(block).signal@[i] * weights@[i],
        final (block).block_size == old(block).block_size,
        final (block).model_order == old(block).model_order,
        final (block).frequency_bins == old(block).frequency_bins,
        final (block).sample_rate == old(block).sample_rate,
        final (block).signal.len() == old(block).signal.len(),
        final (block).correlation == old(block).correlation,
        final (block).input == old(block).input,
        final (block).target == old(block).target,
        final (block).toeplitz_indices == old(block).toeplitz_indices,
        final (block).toeplitz == old(block).toeplitz,
        final (block).formant_indices == old(block).formant_indices,
        final (block).formant_count == old(block).formant_count,
{
    let n = block.block_size;
    let mut i: usize = 0;
    while i < n
        invariant
            i <= n,
            n == block.block_size,
            block.well_formed(),
            weights.len() == n,
            samples_bounded(weights@, SAMPLE_LIMIT as int),
            forall|k: int|
                0 <= k < i ==> block.signal@[k] == old(block).signal@[k] * weights@[k],
            forall|k: int| i <= k < n ==> block.signal@[k] == old(block).signal@[k],
            block.block_size == old(block).block_size,
            block.model_order == old(block).model_order,
            block.frequency_bins == old(block).frequency_bins,
            block.sample_rate == old(block).sample_rate,
            block.signal.len() == old(block).signal.len(),
            block.correlation == old(block).correlation,
            block.input == old(block).input,
            block.target == old(block).target,
            block.toeplitz_indices == old(block).toeplitz_indices,
            block.toeplitz == old(block).toeplitz,
            block.formant_indices == old(block).formant_indices,
            block.formant_count == old(block).formant_count,
            samples_bounded(old(block).signal@, SAMPLE_LIMIT as int),
        decreases n - i,
    {
        let a = block.signal[i];
        let w = weights[i];
        proof {
            lemma_product_bounded(a as int, w as int, SAMPLE_LIMIT as int);
        }
        block.signal[i] = a * w;
        i = i + 1;
    }
}

/// Law: windowing is not idempotent. A second pass over an already windowed
/// signal multiplies by the weights again, so sample `i` ends at
/// `s0[i] * w[i] * w[i]`; wherever the sample is nonzero and its weight is
/// neither 0 nor 1, the second pass changes the value once more. The three
/// sequences are related as two runs of the windowing stage relate them.
pub proof fn lemma_window_not_idempotent(
    s0: Seq<int>,
    s1: Seq<int>,
    s2: Seq<int>,
    w: Seq<int>,
    i: int,
)
    requires
        s1.len() == s0.len(),
        s2.len() == s0.len(),
        w.len() == s0.len(),
        forall|k: int| 0 <= k < s0.len() ==> #[trigger] s1[k] == s0[k] * w[k],
        forall|k: int| 0 <= k < s0.len() ==> #[trigger] s2[k] == s1[k] * w[k],
        0 <= i < s0.len(),
    ensures
        s2[i] == s0[i] * w[i] * w[i],
        s0[i] != 0 && w[i] != 0 && w[i] != 1 ==> s2[i] != s1[i],
{
    assert(s2[i] == s0[i] * w[i] * w[i]) by (nonlinear_arith)
        requires
            s1[i] == s0[i] * w[i],
            s2[i] == s1[i] * w[i],
    ;
    if s0[i] != 0 && w[i] != 0 && w[i] != 1 {
        assert(s0[i] * w[i] * w[i] != s0[i] * w[i]) by (nonlinear_arith)
            requires
                s0[i] != 0,
                w[i] != 0,
                w[i] != 1,
        ;
    }
}

} // verus!
