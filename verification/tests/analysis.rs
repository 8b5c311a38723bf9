use formants::apply_hann_weights;
use formants::autocorrelate;
use formants::build_toeplitz_matrix;
use formants::build_vector_pair;
use formants::extract_maxima;
use formants::preemphasis_filter;
use formants::BlockData;

#[test]
fn toeplitz_indices_for_order_four() {
    let block = BlockData::new(8, 4, 16, 8000);
    let expected: Vec<usize> = vec![0, 1, 2, 3, 1, 0, 1, 2, 2, 1, 0, 1, 3, 2, 1, 0];
    assert_eq!(block.toeplitz_indices, expected);
}

#[test]
fn construction_sizes_and_zeroes_all_buffers() {
    let block = BlockData::new(16, 3, 9, 44100);
    assert_eq!(block.block_size, 16);
    assert_eq!(block.model_order, 3);
    assert_eq!(block.frequency_bins, 9);
    assert_eq!(block.sample_rate, 44100);
    assert_eq!(block.signal.len(), 16);
    assert_eq!(block.correlation.len(), 4);
    assert_eq!(block.input.len(), 3);
    assert_eq!(block.target.len(), 3);
    assert_eq!(block.toeplitz_indices.len(), 9);
    assert_eq!(block.toeplitz.len(), 9);
    assert!(block.signal.iter().all(|&v| v == 0));
    assert!(block.correlation.iter().all(|&v| v == 0));
    assert!(block.toeplitz.iter().all(|&v| v == 0));
    assert_eq!(block.formant_indices.len(), 0);
    assert_eq!(block.formant_count, 0);
    assert_eq!(block.formants_count(), 0);
}

#[test]
fn zero_signal_gives_zero_correlation_and_zero_toeplitz() {
    let mut block = BlockData::new(8, 2, 8, 8000);
    autocorrelate(&mut block);
    assert!(block.correlation.iter().all(|&v| v == 0));
    build_vector_pair(&mut block);
    build_toeplitz_matrix(&mut block);
    assert!(block.input.iter().all(|&v| v == 0));
    assert!(block.target.iter().all(|&v| v == 0));
    assert!(block.toeplitz.iter().all(|&v| v == 0));
}

#[test]
fn constant_signal_correlation_is_monotone_nonincreasing() {
    let mut block = BlockData::new(8, 2, 8, 8000);
    for i in 0..8 {
        block.signal[i] = 1;
    }
    autocorrelate(&mut block);
    assert_eq!(block.correlation, vec![8, 7, 6]);
    for i in 0..block.correlation.len() - 1 {
        assert!(block.correlation[i + 1].abs() <= block.correlation[i].abs());
    }
}

#[test]
fn autocorrelation_exact_values() {
    let mut block = BlockData::new(4, 2, 8, 8000);
    block.signal = vec![1, 2, 3, 4];
    autocorrelate(&mut block);
    assert_eq!(block.correlation, vec![30, 20, 11]);
}

#[test]
fn vector_pair_copies_and_negates() {
    let mut block = BlockData::new(4, 2, 8, 8000);
    block.correlation = vec![5, -3, 2];
    build_vector_pair(&mut block);
    assert_eq!(block.input, vec![5, -3]);
    assert_eq!(block.target, vec![3, -2]);
}

#[test]
fn toeplitz_matrix_mirrors_input_across_the_diagonal() {
    let mut block = BlockData::new(4, 2, 8, 8000);
    block.input = vec![5, -3];
    build_toeplitz_matrix(&mut block);
    assert_eq!(block.toeplitz, vec![5, -3, -3, 5]);

    let mut big = BlockData::new(8, 3, 8, 8000);
    big.input = vec![9, 4, -1];
    build_toeplitz_matrix(&mut big);
    assert_eq!(big.toeplitz, vec![9, 4, -1, 4, 9, 4, -1, 4, 9]);
}

#[test]
fn windowing_multiplies_in_place_and_is_not_idempotent() {
    let mut block = BlockData::new(4, 1, 8, 8000);
    block.signal = vec![1, 1, 1, 1];
    let weights: Vec<i64> = vec![2, 3, 4, 5];
    apply_hann_weights(&mut block, &weights);
    assert_eq!(block.signal, vec![2, 3, 4, 5]);
    apply_hann_weights(&mut block, &weights);
    assert_eq!(block.signal, vec![4, 9, 16, 25]);
}

#[test]
fn preemphasis_exact_differences() {
    let mut block = BlockData::new(3, 1, 8, 8000);
    block.signal = vec![100, 50, 10];
    preemphasis_filter(&mut block);
    assert_eq!(block.signal, vec![100, -18, -24]);
}

#[test]
fn preemphasis_uses_the_original_previous_sample() {
    let mut block = BlockData::new(3, 1, 8, 8000);
    block.signal = vec![10, 10, 10];
    preemphasis_filter(&mut block);
    assert_eq!(block.signal, vec![10, 4, 4]);
}

#[test]
fn preemphasis_truncates_toward_zero() {
    let mut block = BlockData::new(2, 1, 8, 8000);
    block.signal = vec![3, 0];
    preemphasis_filter(&mut block);
    assert_eq!(block.signal, vec![3, -2]);

    let mut negative = BlockData::new(2, 1, 8, 8000);
    negative.signal = vec![-3, 0];
    preemphasis_filter(&mut negative);
    assert_eq!(negative.signal, vec![-3, 2]);
}

#[test]
fn constant_envelope_marks_every_interior_index() {
    let mut block = BlockData::new(4, 1, 5, 8000);
    let magnitude: Vec<u64> = vec![7, 7, 7, 7, 7];
    extract_maxima(&mut block, &magnitude);
    assert_eq!(block.formant_indices, vec![1, 2, 3]);
    assert_eq!(block.formant_count, 3);
    assert_eq!(block.formants_count(), 3);
}

#[test]
fn peaks_keep_ties_and_interior_maxima() {
    let mut block = BlockData::new(4, 1, 5, 8000);
    let magnitude: Vec<u64> = vec![0, 5, 0, 3, 1];
    extract_maxima(&mut block, &magnitude);
    assert_eq!(block.formant_indices, vec![1, 3]);

    let mut plateau = BlockData::new(4, 1, 4, 8000);
    let flat_top: Vec<u64> = vec![1, 2, 2, 1];
    extract_maxima(&mut plateau, &flat_top);
    assert_eq!(plateau.formant_indices, vec![1, 2]);
}

#[test]
fn short_envelopes_have_no_interior_candidates() {
    let mut one = BlockData::new(4, 1, 1, 8000);
    extract_maxima(&mut one, &vec![9]);
    assert_eq!(one.formant_count, 0);

    let mut two = BlockData::new(4, 1, 2, 8000);
    extract_maxima(&mut two, &vec![9, 9]);
    assert_eq!(two.formant_count, 0);

    let mut three = BlockData::new(4, 1, 3, 8000);
    extract_maxima(&mut three, &vec![2, 2, 2]);
    assert_eq!(three.formant_indices, vec![1]);
}

#[test]
fn rescan_clears_the_previous_formants() {
    let mut block = BlockData::new(4, 1, 5, 8000);
    extract_maxima(&mut block, &vec![7, 7, 7, 7, 7]);
    assert_eq!(block.formant_count, 3);
    extract_maxima(&mut block, &vec![0, 1, 2, 3, 4]);
    assert_eq!(block.formant_indices, Vec::<usize>::new());
    assert_eq!(block.formant_count, 0);
}

#[test]
fn pipeline_front_half_on_a_constant_block() {
    let mut block = BlockData::new(8, 2, 8, 8000);
    for i in 0..8 {
        block.signal[i] = 1000;
    }
    let weights: Vec<i64> = vec![1; 8];
    apply_hann_weights(&mut block, &weights);
    preemphasis_filter(&mut block);
    assert_eq!(block.signal[0], 1000);
    for i in 1..8 {
        assert_eq!(block.signal[i], 320);
    }
    autocorrelate(&mut block);
    build_vector_pair(&mut block);
    build_toeplitz_matrix(&mut block);
    let c0 = 1000i128 * 1000 + 7 * (320i128 * 320);
    let c1 = 1000i128 * 320 + 6 * (320i128 * 320);
    let c2 = 1000i128 * 320 + 5 * (320i128 * 320);
    assert_eq!(block.correlation, vec![c0, c1, c2]);
    assert_eq!(block.input, vec![c0, c1]);
    assert_eq!(block.target, vec![-c1, -c2]);
    assert_eq!(block.toeplitz, vec![c0, c1, c1, c0]);
}

#[test]
fn full_analysis_pass_on_zero_signal_yields_singular_system() {
    let mut block = BlockData::new(8, 2, 8, 8000);
    let weights: Vec<i64> = vec![3; 8];
    formants::run_analysis(&mut block, &weights);
    assert!(block.signal.iter().all(|&v| v == 0));
    assert!(block.correlation.iter().all(|&v| v == 0));
    assert!(block.input.iter().all(|&v| v == 0));
    assert!(block.target.iter().all(|&v| v == 0));
    assert!(block.toeplitz.iter().all(|&v| v == 0));
}

#[test]
fn full_analysis_pass_exact_values() {
    let mut block = BlockData::new(4, 2, 8, 8000);
    block.signal = vec![10, 10, 10, 10];
    let weights: Vec<i64> = vec![1, 1, 1, 1];
    formants::run_analysis(&mut block, &weights);
    assert_eq!(block.signal, vec![10, 4, 4, 4]);
    assert_eq!(block.correlation, vec![148, 72, 56]);
    assert_eq!(block.input, vec![148, 72]);
    assert_eq!(block.target, vec![-72, -56]);
    assert_eq!(block.toeplitz, vec![148, 72, 72, 148]);
}

#[test]
fn minimal_configuration_analysis() {
    let mut block = BlockData::new(2, 1, 1, 1);
    block.signal = vec![1, -1];
    let weights: Vec<i64> = vec![1, 1];
    formants::run_analysis(&mut block, &weights);
    assert_eq!(block.signal, vec![1, -1]);
    assert_eq!(block.correlation, vec![2, -1]);
    assert_eq!(block.input, vec![2]);
    assert_eq!(block.target, vec![1]);
    assert_eq!(block.toeplitz, vec![2]);
}

#[test]
fn analysis_at_the_headroom_limit() {
    let limit = formants::RAW_SAMPLE_LIMIT;
    let mut block = BlockData::new(2, 1, 1, 8000);
    block.signal = vec![limit, -limit];
    let weights: Vec<i64> = vec![limit, limit];
    formants::run_analysis(&mut block, &weights);
    let windowed = limit * limit;
    assert_eq!(block.signal[0], windowed);
    assert_eq!(block.signal[1], -windowed - (68 * windowed) / 100);
}
