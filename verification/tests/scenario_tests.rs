//! End-to-end runs on the in-memory device model: the zero, random, DoD
//! and Gutmann algorithms with the statistical verifier over the result.

use sayonara_wipe::algorithms::{DoDWipe, RandomWipe, ZeroWipe};
use sayonara_wipe::io::MemDevice;
use sayonara_wipe::patterns::GutmannWipe;
use sayonara_wipe::recovery::RecoveryTest;
use sayonara_wipe::verification::{EnhancedVerification, PreWipeTestResults};

/// A 64 MiB device pre-filled with `0xAA`, wiped with `Zero`: every byte
/// reads back `0x00`, the entropy is near zero, and the verifier's
/// confidence stays below the threshold for clean media (low entropy is
/// treated as structured data).
#[test]
fn zero_wipe_leaves_no_entropy() {
    let size = 64 * 1024 * 1024;
    let mut dev = MemDevice::new(size, 0xAA);

    let logs = ZeroWipe::wipe_drive(&mut dev);
    assert_eq!(logs.len(), 1);
    assert_eq!(logs[0].bytes_written, size);
    assert!(dev.data.iter().all(|&b| b == 0x00), "every byte is 0x00");

    let entropy = EnhancedVerification::calculate_entropy(&dev.data);
    assert!(entropy < 100, "entropy below 0.1 bits");

    let sample = dev.read_at(0, 1024 * 1024);
    let sectors = EnhancedVerification::analyze_sectors(&dev);
    let post = EnhancedVerification::analyze_sample(&sample, sectors);
    let pre = PreWipeTestResults {
        test_pattern_detection: true,
        recovery_tool_simulation: true,
        sensitivity_calibration: 100,
        false_positive_per_mille: 0,
        false_negative_per_mille: 0,
    };
    let confidence = EnhancedVerification::calculate_confidence_level(&pre, &post);
    assert!(confidence < 950, "confidence below threshold for constant fill");
}

/// The same device wiped with `Random`: entropy above 7.5 bits,
/// chi-square under 300, all five statistical tests pass, and the
/// confidence reaches 95%. The bars are statistical, so the run is
/// retried a few times before declaring failure.
#[test]
fn random_wipe_passes_statistics() {
    let size = 64 * 1024 * 1024;
    let mut success = false;
    let mut dev = MemDevice::new(size, 0xAA);
    for _attempt in 0..3 {
        let logs = RandomWipe::wipe_drive(&mut dev);
        assert_eq!(logs.len(), 1);
        assert_eq!(logs[0].bytes_written, size);

        let sample = dev.read_at(0, 256 * 1024);
        let entropy = EnhancedVerification::calculate_entropy(&sample);
        let chi = EnhancedVerification::chi_square_test(&sample);
        let stats = EnhancedVerification::run_statistical_tests(&sample);
        let sectors = EnhancedVerification::analyze_sectors(&dev);
        let post = EnhancedVerification::analyze_sample(&sample, sectors);
        let pre = PreWipeTestResults {
            test_pattern_detection: true,
            recovery_tool_simulation: true,
            sensitivity_calibration: 100,
            false_positive_per_mille: 0,
            false_negative_per_mille: 0,
        };
        let confidence = EnhancedVerification::calculate_confidence_level(&pre, &post);

        if entropy > 7500
            && chi < 300_000
            && stats.runs_test_passed
            && stats.monobit_test_passed
            && stats.poker_test_passed
            && stats.serial_test_passed
            && stats.autocorrelation_test_passed
            && confidence >= 950
        {
            success = true;
            break;
        }
    }
    assert!(success, "random wipe meets every statistical bar");
}

/// A 16 MiB device through the DoD passes: after pass 1 the first 4 KiB
/// read all `0x00`, after pass 2 all `0xFF`, and after pass 3 a 4 KiB
/// sample carries more than 7 bits of entropy per byte.
#[test]
fn dod_passes_in_order() {
    let size = 16 * 1024 * 1024;
    let mut dev = MemDevice::new(size, 0xAA);

    let w = DoDWipe::write_pattern(&mut dev, 0x00);
    assert_eq!(w, size);
    assert!(dev.read_at(0, 4096).iter().all(|&b| b == 0x00));

    let w = DoDWipe::write_pattern(&mut dev, 0xFF);
    assert_eq!(w, size);
    assert!(dev.read_at(0, 4096).iter().all(|&b| b == 0xFF));

    let w = DoDWipe::write_random(&mut dev);
    assert_eq!(w, size);
    let entropy = EnhancedVerification::calculate_entropy(&dev.read_at(0, 4096));
    assert!(entropy > 7000, "random pass sample above 7 bits");
}

/// The full three-pass DoD log, and the same schedule as data.
#[test]
fn dod_wipe_records_three_passes() {
    let size = 4 * 1024 * 1024;
    let mut dev = MemDevice::new(size, 0x11);
    let logs = DoDWipe::wipe_drive(&mut dev);
    assert_eq!(logs.len(), 3);
    assert_eq!(logs[0].pattern, Some(vec![0x00]));
    assert_eq!(logs[1].pattern, Some(vec![0xFF]));
    assert_eq!(logs[2].pattern, None);
    for log in &logs {
        assert_eq!(log.bytes_written, size, "every pass covers the whole device");
    }

    let plan = DoDWipe::dod_patterns();
    assert_eq!(plan.len(), 3);
    assert_eq!(plan[0], Some(vec![0x00]));
    assert_eq!(plan[1], Some(vec![0xFF]));
    assert_eq!(plan[2], None);
}

/// A 1 MiB device through all 35 Gutmann passes: the log records each
/// pass with the schedule's own pattern and a full-device write count.
#[test]
fn gutmann_records_thirty_five_passes() {
    let size = 1024 * 1024;
    let mut dev = MemDevice::new(size, 0xAA);
    let logs = GutmannWipe::wipe_drive(&mut dev);
    assert_eq!(logs.len(), 35);

    let table = GutmannWipe::gutmann_patterns();
    for (k, log) in logs.iter().enumerate() {
        assert_eq!(log.bytes_written, size, "pass {} covers the whole device", k);
        assert_eq!(&log.pattern, &table[k], "pass {} wrote the scheduled pattern", k);
    }
}

/// After the pre-wipe self-test, the test area reads as zeros, not as
/// probe patterns.
#[test]
fn self_test_restores_test_area() {
    let size = 1024 * 1024;
    let mut dev = MemDevice::new(size, 0x77);

    let result = EnhancedVerification::pre_wipe_capability_test(&mut dev, size).unwrap();
    assert!(result.test_pattern_detection);
    assert!(result.recovery_tool_simulation);
    assert_eq!(result.false_negative_per_mille, 0);
    assert!(result.sensitivity_calibration >= 50);

    assert!(dev.data.iter().all(|&b| b == 0x00), "test area holds zeros after the self-test");
}

/// The recovery test passes a randomised device and fails a constant one.
#[test]
fn recovery_test_grades_wipes() {
    let size = 1024 * 1024;
    let mut dev = MemDevice::new(size, 0x00);
    sayonara_wipe::rng::fill_random(&mut dev.data);
    assert!(RecoveryTest::verify_wipe(&dev), "random device passes");

    let zeros = MemDevice::new(size, 0x00);
    assert!(!RecoveryTest::verify_wipe(&zeros), "constant device fails");
}

/// Sector heuristics: a constant sector fails, a random one passes.
#[test]
fn sector_wipe_heuristic() {
    let zeros = vec![0u8; 512];
    assert!(!RecoveryTest::verify_sector_wiped(&zeros));

    let mut random = vec![0u8; 512];
    sayonara_wipe::rng::fill_random(&mut random);
    assert!(RecoveryTest::verify_sector_wiped(&random));
}
