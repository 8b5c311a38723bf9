//! Linear-predictive analysis of one block of audio samples.
//!
//! The crate carries the exact-arithmetic core of an LPC formant analyzer:
//! the per-block data model, in-place windowing, fixed-point pre-emphasis,
//! autocorrelation, the Yule-Walker normal equations, the symmetric
//! Toeplitz matrix they induce, and tie-inclusive peak picking over a
//! magnitude envelope. Samples are fixed-point integers; every stage
//! states exactly what it writes.

mod autocorrelate;
mod block;
mod maxima;
mod pipeline;
mod preemphasis;
mod weights;

pub use autocorrelate::autocorrelate;
pub use autocorrelate::dot_prefix;
pub use autocorrelate::lemma_constant_correlation_monotone;
pub use autocorrelate::lemma_constant_signal_autocorrelation;
pub use autocorrelate::lemma_constant_signal_monotone;
pub use autocorrelate::lemma_zero_signal_zero_autocorrelation;
pub use autocorrelate::lemma_zero_signal_zero_toeplitz;
pub use block::build_toeplitz_matrix;
pub use block::build_vector_pair;
pub use block::lag_of;
pub use block::samples_bounded;
pub use block::BlockData;
pub use block::BLOCK_SIZE_LIMIT;
pub use block::CORRELATION_LIMIT;
pub use block::SAMPLE_LIMIT;
pub use maxima::extract_maxima;
pub use maxima::is_peak;
pub use maxima::lemma_constant_magnitude_all_peaks;
pub use maxima::lemma_peaks_membership;
pub use maxima::lemma_peaks_upto_properties;
pub use maxima::peaks;
pub use maxima::peaks_upto;
pub use pipeline::lemma_zero_signal_zero_analysis;
pub use pipeline::run_analysis;
pub use pipeline::RAW_SAMPLE_LIMIT;
pub use preemphasis::div_trunc;
pub use preemphasis::lemma_div_trunc_bound;
pub use preemphasis::lemma_div_trunc_range;
pub use preemphasis::preemphasis_filter;
pub use weights::apply_hann_weights;
pub use weights::lemma_window_not_idempotent;
