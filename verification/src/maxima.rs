use crate::block::BlockData;
use vstd::prelude::*;

verus! {

/// Index `i` is an interior local maximum of the magnitude envelope, ties
/// included: both neighbors are less than or equal to the value at `i`.
pub open spec fn is_peak(mag: Seq<u64>, i: int) -> bool {
    &&& 1 <= i
    &&& i + 1 < mag.len()
    &&& mag[i - 1] <= mag[i]
    &&& mag[i + 1] <= mag[i]
}

/// The ascending sequence of every peak index strictly below `n`.
pub open spec fn peaks_upto(mag: Seq<u64>, n: int) -> Seq<usize>
    decreases n,
{
    if n <= 1 {
        Seq::empty()
    } else if is_peak(mag, n - 1) {
        peaks_upto(mag, n - 1).push((n - 1) as usize)
    } else {
        peaks_upto(mag, n - 1)
    }
}

/// The ascending sequence of every interior tie-inclusive local maximum of
/// the envelope.
pub open spec fn peaks(mag: Seq<u64>) -> Seq<usize> {
    peaks_upto(mag, mag.len() - 1)
}

/// Every entry of the scan result is a peak, entries stay below `n`, the
/// result is strictly ascending, and it cannot hold more than `n - 1`
/// entries.
pub proof fn lemma_peaks_upto_properties(mag: Seq<u64>, n: int)
    requires
        n <= mag.len(),
        n <= usize::MAX,
    ensures
        forall|j: int|
            0 <= j < peaks_upto(mag, n).len() ==> is_peak(
                mag,
                #[trigger] peaks_upto(mag, n)[j] as int,
            ) && peaks_upto(mag, n)[j] < n,
        forall|j1: int, j2: int|
            0 <= j1 < j2 < peaks_upto(mag, n).len() ==> peaks_upto(mag, n)[j1] < peaks_upto(
                mag,
                n,
            )[j2],
        peaks_upto(mag, n).len() <= if n >= 1 {
            n - 1
        } else {
            0
        },
    decreases n,
{
    if n > 1 {
        lemma_peaks_upto_properties(mag, n - 1);
        let prev = peaks_upto(mag, n - 1);
        let cur = peaks_upto(mag, n);
        if is_peak(mag, n - 1) {
            assert(cur == prev.push((n - 1) as usize));
            assert(((n - 1) as usize) as int == n - 1);
            assert forall|j: int| 0 <= j < cur.len() implies is_peak(
                mag,
                #[trigger] cur[j] as int,
            ) && cur[j] < n by {
                if j < prev.len() {
                    assert(cur[j] == prev[j]);
                } else {
                    assert(cur[j] == (n - 1) as usize);
                }
            }
            assert forall|j1: int, j2: int| 0 <= j1 < j2 < cur.len() implies cur[j1]
                < cur[j2] by {
                if j2 < prev.len() {
                    assert(cur[j1] == prev[j1] && cur[j2] == prev[j2]);
                } else {
                    assert(cur[j1] == prev[j1] && cur[j2] == (n - 1) as usize);
                    assert(prev[j1] < n - 1);
                }
            }
        }
    }
}

/// An index is in the scan result exactly when it is a peak below `n`.
pub proof fn lemma_peaks_membership(mag: Seq<u64>, n: int, i: usize)
    requires
        n <= mag.len(),
        n <= usize::MAX,
    ensures
        peaks_upto(mag, n).contains(i) <==> (is_peak(mag, i as int) && (i as int) < n),
    decreases n,
{
    let cur = peaks_upto(mag, n);
    if n <= 1 {
        assert(!cur.contains(i));
    } else {
        lemma_peaks_membership(mag, n - 1, i);
        let prev = peaks_upto(mag, n - 1);
        if is_peak(mag, n - 1) {
            assert(cur == prev.push((n - 1) as usize));
            assert(((n - 1) as usize) as int == n - 1);
            if is_peak(mag, i as int) && (i as int) < n {
                if i as int == n - 1 {
                    assert(cur[prev.len() as int] == i);
                    assert(cur.contains(i));
                } else {
                    let j = choose|j: int| 0 <= j < prev.len() && prev[j] == i;
                    assert(cur[j] == i);
                    assert(cur.contains(i));
                }
            }
            if cur.contains(i) {
                let j = choose|j: int| 0 <= j < cur.len() && cur[j] == i;
                if j < prev.len() {
                    assert(prev[j] == i);
                    assert(prev.contains(i));
                } else {
                    assert(cur[j] == (n - 1) as usize);
                    assert(i as int == n - 1);
                }
            }
        } else {
            assert(cur == prev);
            if is_peak(mag, i as int) && (i as int) < n {
                assert(i as int != n - 1);
            }
        }
    }
}

/// Scans the magnitude envelope for interior local maxima with a window
/// radius of one, keeping ties, and replaces the block's formant list with
/// the ascending indices found. A flat stretch of the envelope therefore
/// reports each of its interior points as a maximum.
pub fn extract_maxima(block: &mut BlockData, magnitude: &Vec<u64>)
    requires
        old(block).well_formed(),
        magnitude.len() == old(block).frequency_bins,
    ensures
        final (block).well_formed(),
        final (block).formant_indices@ == peaks(magnitude@),
        final (block).formant_count == peaks(magnitude@).len(),
        forall|i: usize|
            final (block).formant_indices@.contains(i) <==> is_peak(magnitude@, i as int),
        final (block).block_size == old(block).block_size,
        final (block).model_order == old(block).model_order,
        final (block).frequency_bins == old(block).frequency_bins,
        final (block).sample_rate == old(block).sample_rate,
        final (block).signal == old(block).signal,
        final (block).correlation == old(block).correlation,
        final (block).input == old(block).input,
        final (block).target == old(block).target,
        final (block).toeplitz_indices == old(block).toeplitz_indices,
        final (block).toeplitz == old(block).toeplitz,
{
    let bins = block.frequency_bins;
    block.formant_indices = Vec::new();
    block.formant_count = 0;

    let mut i: usize = 1;
    while i + 1 < bins
        invariant
            1 <= i,
            i + 1 <= bins || i == 1,
            bins == block.frequency_bins,
            magnitude.len() == bins,
            block.formant_indices@ == peaks_upto(magnitude@, i as int),
            block.formant_count == block.formant_indices.len(),
            block.formant_count < i,
            block.block_size == old(block).block_size,
            block.model_order == old(block).model_order,
            block.frequency_bins == old(block).frequency_bins,
            block.sample_rate == old(block).sample_rate,
            block.signal == old(block).signal,
            block.correlation == old(block).correlation,
            block.input == old(block).input,
            block.target == old(block).target,
            block.toeplitz_indices == old(block).toeplitz_indices,
            block.toeplitz == old(block).toeplitz,
            old(block).well_formed(),
        decreases bins - i,
    {
        let low = magnitude[i - 1];
        let here = magnitude[i];
        let high = magnitude[i + 1];
        let is_maximum = low <= here && high <= here;
        if is_maximum {
            block.formant_indices.push(i);
            block.formant_count = block.formant_count + 1;
        }
        i = i + 1;
    }

    proof {
        if bins >= 2 {
            assert(i as int == bins - 1);
        } else {
            assert(peaks_upto(magnitude@, 1) =~= peaks_upto(magnitude@, bins - 1));
            assert(block.formant_indices@ == peaks(magnitude@));
        }
        lemma_peaks_upto_properties(magnitude@, bins - 1);
        assert forall|t: usize| block.formant_indices@.contains(t) <==> is_peak(
            magnitude@,
            t as int,
        ) by {
            lemma_peaks_membership(magnitude@, bins - 1, t);
        }
    }
}

/// Law: the tie rule. On a constant magnitude envelope of length at least
/// three, every interior index is a peak, and the scan yields exactly the
/// indices 1 through `len - 2`, ascending.
pub proof fn lemma_constant_magnitude_all_peaks(mag: Seq<u64>)
    requires
        mag.len() >= 3,
        forall|k: int| 0 <= k < mag.len() ==> #[trigger] mag[k] == mag[0],
    ensures
        forall|i: int| 1 <= i < mag.len() - 1 ==> is_peak(mag, i),
        peaks(mag) =~= Seq::new((mag.len() - 2) as nat, |j: int| (j + 1) as usize),
{
    lemma_constant_magnitude_prefix(mag, mag.len() - 1);
}

proof fn lemma_constant_magnitude_prefix(mag: Seq<u64>, n: int)
    requires
        mag.len() >= 3,
        1 <= n <= mag.len() - 1,
        forall|k: int| 0 <= k < mag.len() ==> #[trigger] mag[k] == mag[0],
    ensures
        peaks_upto(mag, n) =~= Seq::new((n - 1) as nat, |j: int| (j + 1) as usize),
    decreases n,
{
    if n > 1 {
        lemma_constant_magnitude_prefix(mag, n - 1);
        assert(is_peak(mag, n - 1));
    }
}

} // verus!
