use entropy_forge::metrics::byte_sum;
use entropy_forge::metrics::longest_run;
use entropy_forge::FrequencyTable;
use entropy_forge::NistTests;

#[test]
fn test_frequency_table_uniform_sample() {
    // Bytes 0..=255 once each: every count is 1.
    let data: Vec<u8> = (0..=255u8).collect();
    let table = FrequencyTable::new(&data);
    assert_eq!(table.total(), 256);
    for b in 0..=255u8 {
        assert_eq!(table.count(b), 1);
    }
    assert_eq!(table.max_count(), 1);
}

#[test]
fn test_frequency_table_constant_sample() {
    // A constant sample concentrates the whole count on one value, which
    // is what makes its Shannon entropy zero.
    let data = vec![7u8; 300];
    let table = FrequencyTable::new(&data);
    assert_eq!(table.total(), 300);
    assert_eq!(table.count(7), 300);
    assert_eq!(table.count(8), 0);
    assert_eq!(table.max_count(), 300);
}

#[test]
fn test_frequency_table_empty() {
    let table = FrequencyTable::new(&[]);
    assert_eq!(table.total(), 0);
    assert_eq!(table.max_count(), 0);
    assert_eq!(table.count(0), 0);
}

#[test]
fn test_max_count_for_min_entropy() {
    // 4 of the 8 bytes are 1, so the most frequent value has probability
    // one half and the min-entropy is exactly one bit.
    let data = vec![1u8, 2, 3, 4, 5, 1, 1, 1];
    let table = FrequencyTable::new(&data);
    assert_eq!(table.total(), 8);
    assert_eq!(table.max_count(), 4);
    let min_entropy = -((table.max_count() as f64) / (table.total() as f64)).log2();
    assert!((min_entropy - 1.0).abs() < 0.01);
}

#[test]
fn test_byte_sum_mean() {
    // mean([0, 128, 255]) == 383 / 3 == 127.666...
    let data = vec![0u8, 128, 255];
    assert_eq!(byte_sum(&data), 383);
    let mean = byte_sum(&data) as f64 / data.len() as f64;
    assert!((mean - (0.0 + 128.0 + 255.0) / 3.0).abs() < 1e-12);
}

#[test]
fn test_byte_sum_edges() {
    assert_eq!(byte_sum(&[]), 0);
    assert_eq!(byte_sum(&[255u8; 1000]), 255_000);
}

#[test]
fn test_longest_run_crosses_byte_boundary() {
    // 00001111 11110000: the run of ones continues across the boundary.
    assert_eq!(longest_run(&[0x0F, 0xF0]), 8);
}

#[test]
fn test_longest_run_values() {
    assert_eq!(longest_run(&[]), 0);
    assert_eq!(longest_run(&[0xAA]), 1);
    assert_eq!(longest_run(&[0xFF, 0xFF]), 16);
    assert_eq!(longest_run(&[0x00, 0xFF]), 8);
    // 00000011 11000000: 6 zeros, 4 ones, 6 zeros.
    assert_eq!(longest_run(&[0x03, 0xC0]), 6);
}

#[test]
fn test_ones_count_biased_and_balanced() {
    // 1000 bytes of 0xFF: all 8000 bits are ones; the frequency test's
    // normalized deviation is maximal and its p-value falls below 0.01.
    assert_eq!(NistTests::ones_count(&vec![0xFFu8; 1000]), 8000);
    // 1000 bytes of 0xAA: exactly half the bits are ones; the deviation
    // is zero and the frequency test passes.
    assert_eq!(NistTests::ones_count(&vec![0xAAu8; 1000]), 4000);
    assert_eq!(NistTests::ones_count(&[]), 0);
}

#[test]
fn test_ones_count_all_zeros() {
    // 1000 zero bytes: no ones at all, the other half of the frequency
    // test scenario.
    assert_eq!(NistTests::ones_count(&vec![0u8; 1000]), 0);
    assert_eq!(byte_sum(&vec![0u8; 1000]), 0);
}

#[test]
fn test_runs_count() {
    assert_eq!(NistTests::runs_count(&[]), 0);
    assert_eq!(NistTests::runs_count(&[0x00]), 1);
    // 10101010 alternates on every bit: eight runs.
    assert_eq!(NistTests::runs_count(&[0xAA]), 8);
    // 11110000 00001111: three runs.
    assert_eq!(NistTests::runs_count(&[0xF0, 0x0F]), 3);
}

#[test]
fn test_runs_applicable() {
    // Perfectly balanced bits: applicable.
    assert!(NistTests::runs_applicable(&vec![0xAAu8; 1000]));
    // All ones: far too biased.
    assert!(!NistTests::runs_applicable(&vec![0xFFu8; 1000]));
    // Empty: never applicable.
    assert!(!NistTests::runs_applicable(&[]));
}

#[test]
fn test_serial_counts_alternating() {
    // 0xAA ten times: bits 1010...10; of the 79 windows, "10" starts at
    // the 40 even positions and "01" at the 39 odd ones.
    let counts = NistTests::serial_counts(&vec![0xAAu8; 10]);
    assert_eq!(counts, vec![0, 39, 40, 0]);
}

#[test]
fn test_serial_counts_edges() {
    assert_eq!(NistTests::serial_counts(&[]), vec![0, 0, 0, 0]);
    // One byte 0xFF: seven "11" windows.
    assert_eq!(NistTests::serial_counts(&[0xFF]), vec![0, 0, 0, 7]);
    // The window counts always total one less than the bit count.
    let counts = NistTests::serial_counts(&vec![0xC3u8; 5]);
    let total: usize = counts.iter().sum();
    assert_eq!(total, 5 * 8 - 1);
}

#[test]
fn test_longest_run_tallies_needs_128_bytes() {
    // Below 128 bytes there is no tally, whatever the content.
    assert!(NistTests::longest_run_tallies(&vec![0u8; 127]).is_none());
    assert!(NistTests::longest_run_tallies(&vec![0xFFu8; 127]).is_none());
    assert!(NistTests::longest_run_tallies(&[]).is_none());
    assert!(NistTests::longest_run_tallies(&vec![0u8; 128]).is_some());
}

#[test]
fn test_longest_run_tallies_small_regime() {
    // 128 bytes = 1024 bits: block size 8, four categories, 128 blocks.
    // All zeros: every block's longest run of ones is 0, category 0.
    let tallies = NistTests::longest_run_tallies(&vec![0u8; 128]).unwrap();
    assert_eq!(tallies, vec![128, 0, 0, 0]);

    // All ones: every block is one run of 8, beyond the last threshold.
    let tallies = NistTests::longest_run_tallies(&vec![0xFFu8; 128]).unwrap();
    assert_eq!(tallies, vec![0, 0, 0, 128]);

    // 0xAA blocks have longest run 1, the first category; the tallies
    // always sum to the number of blocks.
    let tallies = NistTests::longest_run_tallies(&vec![0xAAu8; 128]).unwrap();
    assert_eq!(tallies, vec![128, 0, 0, 0]);
    let total: usize = tallies.iter().sum();
    assert_eq!(total, 128);
}

#[test]
fn test_longest_run_tallies_mid_regime() {
    // 1000 bytes = 8000 bits: block size 128, six categories, 62 blocks.
    let tallies = NistTests::longest_run_tallies(&vec![0u8; 1000]).unwrap();
    assert_eq!(tallies.len(), 6);
    assert_eq!(tallies[0], 62);
    let total: usize = tallies.iter().sum();
    assert_eq!(total, 62);
}

#[test]
fn test_longest_run_tallies_large_regime() {
    // 16000 bytes = 128000 bits: block size 10000, seven categories,
    // twelve blocks, all in the first category for a zero sample.
    let tallies = NistTests::longest_run_tallies(&vec![0u8; 16000]).unwrap();
    assert_eq!(tallies.len(), 7);
    assert_eq!(tallies[0], 12);
}

#[test]
fn test_report_names_fixed_order() {
    // The report always lists exactly these five tests, in this order.
    assert_eq!(
        NistTests::test_names(),
        vec![
            "Frequency Test",
            "Runs Test",
            "Longest Run Test",
            "Chi-Square Test",
            "Serial Test",
        ]
    );
}

#[test]
fn test_statistics_idempotent() {
    // The same immutable sample gives bit-identical statistics on every
    // call.
    let data: Vec<u8> = (0..200u8).map(|i| i.wrapping_mul(37)).collect();
    assert_eq!(NistTests::ones_count(&data), NistTests::ones_count(&data));
    assert_eq!(NistTests::runs_count(&data), NistTests::runs_count(&data));
    assert_eq!(
        NistTests::serial_counts(&data),
        NistTests::serial_counts(&data)
    );
    assert_eq!(byte_sum(&data), byte_sum(&data));
    assert_eq!(longest_run(&data), longest_run(&data));
    let t1 = FrequencyTable::new(&data);
    let t2 = FrequencyTable::new(&data);
    for b in 0..=255u8 {
        assert_eq!(t1.count(b), t2.count(b));
    }
}

#[test]
fn test_uniform_sample_statistics() {
    // Bytes 0..=255 once each: the chi-square numerator vanishes (every
    // count equals the expected one) and the byte sum gives the ideal
    // mean of 127.5.
    let data: Vec<u8> = (0..=255u8).collect();
    let table = FrequencyTable::new(&data);
    let mut chi = 0.0f64;
    let expected = table.total() as f64 / 256.0;
    for b in 0..=255u8 {
        let diff = table.count(b) as f64 - expected;
        chi += diff * diff / expected;
    }
    assert!(chi.abs() < 1e-12);
    let mean = byte_sum(&data) as f64 / data.len() as f64;
    assert!((mean - 127.5).abs() < 1e-12);
}
