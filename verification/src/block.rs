use vstd::prelude::*;

verus! {

/// Largest block size the analysis accepts: together with `SAMPLE_LIMIT` it
/// keeps every autocorrelation sum inside `i128`, and it keeps the
/// `model_order * model_order` cell count inside `usize` on any machine.
pub const BLOCK_SIZE_LIMIT: usize = 0x10000;

/// Largest magnitude a raw sample may have when it enters the arithmetic
/// stages: a product of two samples then fits `i64`.
pub const SAMPLE_LIMIT: i64 = 0x4000_0000;

/// Bound on every autocorrelation lag the pipeline produces:
/// `BLOCK_SIZE_LIMIT` products, each at most `SAMPLE_LIMIT * SAMPLE_LIMIT`.
pub const CORRELATION_LIMIT: i128 = 0x1000_0000_0000_0000_0000;

/// Every sample of the sequence lies within `bound` in magnitude.
pub open spec fn samples_bounded(s: Seq<i64>, bound: int) -> bool {
    forall|k: int| 0 <= k < s.len() ==> -bound <= #[trigger] s[k] <= bound
}

/// A product of two factors bounded by `bound` is bounded by its square.
pub(crate) proof fn lemma_product_bounded(a: int, b: int, bound: int)
    by (nonlinear_arith)
    requires
        -bound <= a <= bound,
        -bound <= b <= bound,
        0 <= bound,
    ensures
        -(bound * bound) <= a * b <= bound * bound,
{
}

/// Scaling both sides of `0 <= x <= m` by a nonnegative factor keeps the order.
pub(crate) proof fn lemma_scale_bound(x: int, m: int, p: int)
    by (nonlinear_arith)
    requires
        0 <= x <= m,
        0 <= p,
    ensures
        0 <= x * p <= m * p,
{
}

/// The autocorrelation lag that the Toeplitz cell in row `r`, column `c`
/// draws its value from: the distance `|r - c|`.
pub open spec fn lag_of(r: int, c: int) -> int {
    if r >= c {
        r - c
    } else {
        c - r
    }
}

/// All per-block analysis state: the working signal buffer, the
/// autocorrelation lags, the Yule-Walker vectors, the Toeplitz matrix with
/// its precomputed cell-to-lag table, and the picked formant indices.
///
/// One block is built per configuration and reused across runs; each stage
/// mutates it in place.
pub struct BlockData {
    pub block_size: usize,
    pub model_order: usize,
    pub frequency_bins: usize,
    pub sample_rate: u32,
    pub signal: Vec<i64>,
    pub correlation: Vec<i128>,
    pub input: Vec<i128>,
    pub target: Vec<i128>,
    pub toeplitz_indices: Vec<usize>,
    pub toeplitz: Vec<i128>,
    pub formant_indices: Vec<usize>,
    pub formant_count: usize,
}

impl BlockData {
    /// Structural invariant: buffer lengths follow the configuration, the
    /// index table maps each matrix cell to the lag `|row - col|`, and the
    /// formant list is an ascending sequence of interior envelope indices.
    pub open spec fn well_formed(self) -> bool {
        &&& 1 <= self.model_order
        &&& self.model_order < self.block_size
        &&& self.block_size <= BLOCK_SIZE_LIMIT
        &&& 1 <= self.frequency_bins
        &&& self.signal.len() == self.block_size
        &&& self.correlation.len() == self.model_order + 1
        &&& self.input.len() == self.model_order
        &&& self.target.len() == self.model_order
        &&& self.toeplitz_indices.len() == self.model_order * self.model_order
        &&& self.toeplitz.len() == self.model_order * self.model_order
        &&& forall|k: int|
            0 <= k < self.model_order * self.model_order ==> self.toeplitz_indices@[k]
                < self.model_order
        &&& forall|r: int, c: int|
            0 <= r < self.model_order && 0 <= c < self.model_order
                ==> self.toeplitz_indices@[r * self.model_order + c] == lag_of(r, c)
        &&& self.formant_count == self.formant_indices.len()
        &&& forall|j: int|
            0 <= j < self.formant_indices.len() ==> 1 <= self.formant_indices@[j]
                && self.formant_indices@[j] + 1 < self.frequency_bins
        &&& forall|j1: int, j2: int|
            0 <= j1 < j2 < self.formant_indices.len() ==> self.formant_indices@[j1]
                < self.formant_indices@[j2]
    }

    /// Builds a block for one analysis configuration: every buffer is
    /// allocated at its fixed length and zeroed, and the Toeplitz index
    /// table is filled once with `|row - col|` for the block's lifetime.
    pub fn new(
        block_size: usize,
        model_order: usize,
        frequency_bins: usize,
        sample_rate: u32,
    ) -> (block: BlockData)
        requires
            1 <= model_order,
            model_order < block_size,
            block_size <= BLOCK_SIZE_LIMIT,
            1 <= frequency_bins,
        ensures
            block.well_formed(),
            block.block_size == block_size,
            block.model_order == model_order,
            block.frequency_bins == frequency_bins,
            block.sample_rate == sample_rate,
            forall|i: int| 0 <= i < block_size ==> block.signal@[i] == 0,
            forall|i: int| 0 <= i <= model_order ==> block.correlation@[i] == 0,
            forall|i: int| 0 <= i < model_order ==> block.input@[i] == 0,
            forall|i: int| 0 <= i < model_order ==> block.target@[i] == 0,
            forall|k: int| 0 <= k < model_order * model_order ==> block.toeplitz@[k] == 0,
            forall|r: int, c: int|
                0 <= r < model_order && 0 <= c < model_order ==> block.toeplitz_indices@[r
                    * model_order + c] == lag_of(r, c),
            block.formant_indices@.len() == 0,
            block.formant_count == 0,
    {
        proof {
            lemma_cell_count_fits(model_order as int);
        }
        let cells = model_order * model_order;
        let signal: Vec<i64> = filled(block_size, 0i64);
        let correlation: Vec<i128> = filled(model_order + 1, 0i128);
        let input: Vec<i128> = filled(model_order, 0i128);
        let target: Vec<i128> = filled(model_order, 0i128);
        let mut toeplitz_indices: Vec<usize> = filled(cells, 0usize);
        let toeplitz: Vec<i128> = filled(cells, 0i128);
        let formant_indices: Vec<usize> = Vec::new();

        let mut r: usize = 0;
        while r < model_order
            invariant
                r <= model_order,
                model_order <= BLOCK_SIZE_LIMIT,
                toeplitz_indices.len() == model_order * model_order,
                forall|k: int|
                    0 <= k < model_order * model_order ==> toeplitz_indices@[k] < model_order,
                forall|rr: int, cc: int|
                    0 <= rr < r && 0 <= cc < model_order ==> toeplitz_indices@[rr * model_order
                        + cc] == lag_of(rr, cc),
            decreases model_order - r,
        {
            let mut c: usize = 0;
            while c < model_order
                invariant
                    r < model_order,
                    c <= model_order,
                    model_order <= BLOCK_SIZE_LIMIT,
                    toeplitz_indices.len() == model_order * model_order,
                    forall|k: int|
                        0 <= k < model_order * model_order ==> toeplitz_indices@[k] < model_order,
                    forall|rr: int, cc: int|
                        0 <= rr < r && 0 <= cc < model_order ==> toeplitz_indices@[rr * model_order
                            + cc] == lag_of(rr, cc),
                    forall|cc: int|
                        0 <= cc < c ==> toeplitz_indices@[r * model_order + cc] == lag_of(
                            r as int,
                            cc,
                        ),
                decreases model_order - c,
            {
                proof {
                    lemma_cell_in_range(model_order as int, r as int, c as int);
                }
                let idx = r * model_order + c;
                let lag = if r >= c {
                    r - c
                } else {
                    c - r
                };
                toeplitz_indices[idx] = lag;
                proof {
                    assert forall|rr: int, cc: int|
                        0 <= rr < r && 0 <= cc < model_order implies toeplitz_indices@[rr
                        * model_order + cc] == lag_of(rr, cc) by {
                        lemma_row_major_order(model_order as int, rr, cc, r as int, c as int);
                    }
                }
                c = c + 1;
            }
            r = r + 1;
        }

        BlockData {
            block_size,
            model_order,
            frequency_bins,
            sample_rate,
            signal,
            correlation,
            input,
            target,
            toeplitz_indices,
            toeplitz,
            formant_indices,
            formant_count: 0,
        }
    }

    /// How many formant candidates the last peak scan kept.
    pub fn formants_count(&self) -> (count: usize)
        ensures
            count == self.formant_count,
    {
        self.formant_count
    }
}

/// Derives the Yule-Walker vector pair from the autocorrelation lags:
/// `input[i] = correlation[i]` and `target[i] = -correlation[i + 1]`.
pub fn build_vector_pair(block: &mut BlockData)
    requires
        old(block).well_formed(),
        forall|i: int|
            0 <= i <= old(block).model_order ==> -CORRELATION_LIMIT <= #[trigger] old(
                block,
            ).correlation@[i] <= CORRELATION_LIMIT,
    ensures
        final (block).well_formed(),
        forall|i: int|
            0 <= i < old(block).model_order
                ==> final (block).input@[i] == old(block).correlation@[i],
        forall|i: int|
            0 <= i < old(block).model_order
                ==> final (block).target@[i] == -old(block).correlation@[i + 1],
        final (block).block_size == old(block).block_size,
        final (block).model_order == old(block).model_order,
        final (block).frequency_bins == old(block).frequency_bins,
        final (block).sample_rate == old(block).sample_rate,
        final (block).signal == old(block).signal,
        final (block).correlation == old(block).correlation,
        final (block).toeplitz_indices == old(block).toeplitz_indices,
        final (block).toeplitz == old(block).toeplitz,
        final (block).formant_indices == old(block).formant_indices,
        final (block).formant_count == old(block).formant_count,
{
    let model_order = block.model_order;
    let mut i: usize = 0;
    while i < model_order
        invariant
            i <= model_order,
            model_order == block.model_order,
            block.well_formed(),
            forall|k: int|
                0 <= k <= model_order ==> -CORRELATION_LIMIT <= #[trigger] block.correlation@[k]
                    <= CORRELATION_LIMIT,
            forall|k: int| 0 <= k < i ==> block.input@[k] == block.correlation@[k],
            forall|k: int| 0 <= k < i ==> block.target@[k] == -block.correlation@[k + 1],
            block.block_size == old(block).block_size,
            block.model_order == old(block).model_order,
            block.frequency_bins == old(block).frequency_bins,
            block.sample_rate == old(block).sample_rate,
            block.signal == old(block).signal,
            block.correlation == old(block).correlation,
            block.toeplitz_indices == old(block).toeplitz_indices,
            block.toeplitz == old(block).toeplitz,
            block.formant_indices == old(block).formant_indices,
            block.formant_count == old(block).formant_count,
        decreases model_order - i,
    {
        let lead = block.correlation[i];
        let next = block.correlation[i + 1];
        block.input[i] = lead;
        block.target[i] = -next;
        i = i + 1;
    }
}

/// Rebuilds the symmetric Toeplitz autocorrelation matrix, row-major:
/// every cell copies the `input` entry its precomputed index names, so cell
/// `(r, c)` holds `input[|r - c|]`.
pub fn build_toeplitz_matrix(block: &mut BlockData)
    requires
        old(block).well_formed(),
    ensures
        final (block).well_formed(),
        forall|k: int|
            0 <= k < old(block).model_order * old(block).model_order ==> final (block).toeplitz@[k]
                == old(block).input@[old(block).toeplitz_indices@[k] as int],
        forall|r: int, c: int|
            0 <= r < old(block).model_order && 0 <= c < old(block).model_order
                ==> final (block).toeplitz@[r * old(block).model_order + c]
                == old(block).input@[lag_of(r, c)],
        final (block).block_size == old(block).block_size,
        final (block).model_order == old(block).model_order,
        final (block).frequency_bins == old(block).frequency_bins,
        final (block).sample_rate == old(block).sample_rate,
        final (block).signal == old(block).signal,
        final (block).correlation == old(block).correlation,
        final (block).input == old(block).input,
        final (block).target == old(block).target,
        final (block).toeplitz_indices == old(block).toeplitz_indices,
        final (block).formant_indices == old(block).formant_indices,
        final (block).formant_count == old(block).formant_count,
{
    proof {
        lemma_cell_count_fits(block.model_order as int);
    }
    let cells = block.model_order * block.model_order;
    let mut k: usize = 0;
    while k < cells
        invariant
            k <= cells,
            cells == block.model_order * block.model_order,
            block.well_formed(),
            forall|t: int|
                0 <= t < k ==> block.toeplitz@[t] == block.input@[block.toeplitz_indices@[t] as int],
            block.block_size == old(block).block_size,
            block.model_order == old(block).model_order,
            block.frequency_bins == old(block).frequency_bins,
            block.sample_rate == old(block).sample_rate,
            block.signal == old(block).signal,
            block.correlation == old(block).correlation,
            block.input == old(block).input,
            block.target == old(block).target,
            block.toeplitz_indices == old(block).toeplitz_indices,
            block.formant_indices == old(block).formant_indices,
            block.formant_count == old(block).formant_count,
        decreases cells - k,
    {
        let t_i = block.toeplitz_indices[k];
        let value = block.input[t_i];
        block.toeplitz[k] = value;
        k = k + 1;
    }
    proof {
        assert forall|r: int, c: int|
            0 <= r < block.model_order && 0 <= c < block.model_order implies block.toeplitz@[r
            * block.model_order + c] == block.input@[lag_of(r, c)] by {
            lemma_cell_in_range(block.model_order as int, r, c);
        }
    }
}

/// Fills a vector with `n` copies of one value.
fn filled<T: Copy>(n: usize, value: T) -> (v: Vec<T>)
    ensures
        v.len() == n,
        forall|i: int| 0 <= i < n ==> v@[i] == value,
{
    let mut v: Vec<T> = Vec::new();
    let mut i: usize = 0;
    while i < n
        invariant
            i <= n,
            v.len() == i,
            forall|k: int| 0 <= k < i ==> v@[k] == value,
        decreases n - i,
    {
        v.push(value);
        i = i + 1;
    }
    v
}

/// Row-major cells are visited in index order: any cell of an earlier row
/// lies strictly before any cell of a later row.
proof fn lemma_row_major_order(m: int, r1: int, c1: int, r2: int, c2: int)
    by (nonlinear_arith)
    requires
        0 <= r1 < r2,
        0 <= c1 < m,
        0 <= c2,
    ensures
        r1 * m + c1 < r2 * m + c2,
{
}

/// A cell index `r * m + c` stays inside the `m * m` cell range.
proof fn lemma_cell_in_range(m: int, r: int, c: int)
    by (nonlinear_arith)
    requires
        0 <= r < m,
        0 <= c < m,
    ensures
        0 <= r * m + c < m * m,
{
}

/// The cell count of a matrix whose order respects `BLOCK_SIZE_LIMIT`
/// fits a 32-bit machine word.
proof fn lemma_cell_count_fits(m: int)
    by (nonlinear_arith)
    requires
        0 <= m < 0x10000,
    ensures
        m * m < 0xffff_ffff,
{
}

} // verus!
