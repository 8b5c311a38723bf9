use crate::block::samples_bounded;
use crate::block::BlockData;
use crate::block::SAMPLE_LIMIT;
use vstd::arithmetic::div_mod::lemma_div_is_ordered;
use vstd::arithmetic::div_mod::lemma_div_nonincreasing;
use vstd::arithmetic::div_mod::lemma_div_pos_is_pos;
use vstd::prelude::*;

verus! {

/// Truncating integer division, rounding toward zero: the meaning of the
/// machine's signed division.
pub open spec fn div_trunc(a: int, b: int) -> int
    recommends
        b > 0,
{
    if a >= 0 {
        a / b
    } else {
        -((-a) / b)
    }
}

/// Truncating division by a positive divisor never grows the magnitude:
/// the quotient stays between zero and the dividend.
pub proof fn lemma_div_trunc_bound(a: int, b: int)
    requires
        b >= 1,
    ensures
        0 <= a ==> 0 <= div_trunc(a, b) <= a,
        a < 0 ==> a <= div_trunc(a, b) <= 0,
{
    if a >= 0 {
        lemma_div_pos_is_pos(a, b);
        lemma_div_nonincreasing(a, b);
    } else {
        lemma_div_pos_is_pos(-a, b);
        lemma_div_nonincreasing(-a, b);
    }
}

/// A dividend bounded in magnitude keeps its truncating quotient bounded
/// by the quotient of the bound.
pub proof fn lemma_div_trunc_range(a: int, b: int, bound: int)
    requires
        b >= 1,
        0 <= bound,
        -bound <= a <= bound,
    ensures
        -(bound / b) <= div_trunc(a, b) <= bound / b,
{
    lemma_div_pos_is_pos(bound, b);
    if a >= 0 {
        lemma_div_pos_is_pos(a, b);
        lemma_div_is_ordered(a, bound, b);
    } else {
        lemma_div_pos_is_pos(-a, b);
        lemma_div_is_ordered(-a, bound, b);
    }
}

/// First-order pre-emphasis, in place and left to right: the first sample
/// stays, and each later sample becomes
/// `signal[i] - (68 * signal[i - 1]) / 100`, the difference taken against
/// the original previous sample and the quotient truncated toward zero.
/// The 68/100 ratio is the filter's fixed high-pass coefficient.
pub fn preemphasis_filter(block: &mut BlockData)
    requires
        old(block).well_formed(),
        samples_bounded(old(block).signal@, SAMPLE_LIMIT as int),
    ensures
        final (block).well_formed(),
        final (block).signal@[0] == old(block).signal@[0],
        forall|i: int|
            1 <= i < old(block).block_size
                ==> final (block).signal@[i] == old(block).signal@[i] - div_trunc(
                68 * old(block).signal@[i - 1],
                100,
            ),
        final (block).block_size == old(block).block_size,
        final (block).model_order == old(block).model_order,
        final (block).frequency_bins == old(block).frequency_bins,
        final (block).sample_rate == old(block).sample_rate,
        final (block).signal.len() == old(block).signal.len(),
        final (block).correlation == old(block).correlation,
        final (block).input == old(block).input,
        final (block).target == old(block).target,
        final (block).toeplitz_indices == old(block).toeplitz_indices,
        final (block).toeplitz == old(block).toeplitz,
        final (block).formant_indices == old(block).formant_indices,
        final (block).formant_count == old(block).formant_count,
{
    let n = block.block_size;
    let mut prev = block.signal[0];
    let mut i: usize = 1;
    while i < n
        invariant
            1 <= i <= n,
            n == block.block_size,
            block.well_formed(),
            samples_bounded(old(block).signal@, SAMPLE_LIMIT as int),
            prev == old(block).signal@[i - 1],
            block.signal@[0] == old(block).signal@[0],
            forall|k: int|
                1 <= k < i ==> block.signal@[k] == old(block).signal@[k] - div_trunc(
                    68 * old(block).signal@[k - 1],
                    100,
                ),
            forall|k: int| i <= k < n ==> block.signal@[k] == old(block).signal@[k],
            block.block_size == old(block).block_size,
            block.model_order == old(block).model_order,
            block.frequency_bins == old(block).frequency_bins,
            block.sample_rate == old(block).sample_rate,
            block.signal.len() == old(block).signal.len(),
            block.correlation == old(block).correlation,
            block.input == old(block).input,
            block.target == old(block).target,
            block.toeplitz_indices == old(block).toeplitz_indices,
            block.toeplitz == old(block).toeplitz,
            block.formant_indices == old(block).formant_indices,
            block.formant_count == old(block).formant_count,
        decreases n - i,
    {
        let x = block.signal[i];
        let scaled = prev * 68;
        proof {
            lemma_div_trunc_bound(scaled as int, 100);
        }
        let q = scaled / 100;
        let updated = x - q;
        prev = x;
        block.signal[i] = updated;
        i = i + 1;
    }
}

} // verus!
