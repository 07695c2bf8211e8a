//! The Gutmann schedule, pattern fills, entropy grading, checkpoints and
//! encoding-aware pass selection.

use sayonara_wipe::checkpoint::CheckpointStore;
use sayonara_wipe::io::MemDevice;
use sayonara_wipe::patterns::{DriveEncoding, GutmannWipe};
use sayonara_wipe::verification::EnhancedVerification;
use std::time::Instant;

#[test]
fn test_gutmann_patterns_correct() {
    let patterns = GutmannWipe::gutmann_patterns();
    assert_eq!(patterns.len(), 35);

    for i in 0..4 {
        assert!(patterns[i].is_none(), "Pass {} should be random", i + 1);
    }
    for i in 31..35 {
        assert!(patterns[i].is_none(), "Pass {} should be random", i + 1);
    }

    assert_eq!(patterns[4], Some(vec![0x55]));
    assert_eq!(patterns[5], Some(vec![0xAA]));
    assert_eq!(patterns[6], Some(vec![0x92, 0x49, 0x24]));
    assert_eq!(patterns[7], Some(vec![0x49, 0x24, 0x92]));
    assert_eq!(patterns[8], Some(vec![0x24, 0x92, 0x49]));

    assert_eq!(patterns[9], Some(vec![0x00]));
    assert_eq!(patterns[24], Some(vec![0xFF]));

    assert_eq!(patterns[28], Some(vec![0x6D, 0xB6, 0xDB]));
    assert_eq!(patterns[29], Some(vec![0xB6, 0xDB, 0x6D]));
    assert_eq!(patterns[30], Some(vec![0xDB, 0x6D, 0xB6]));
}

#[test]
fn test_pattern_write_and_verify() {
    let test_size = 10 * 1024;
    let mut dev = MemDevice::new(test_size, 0xDE);

    let pattern = vec![0x55, 0xAA];
    let written = dev.pattern_pass(&pattern);
    assert_eq!(written, test_size);
    assert!(GutmannWipe::verify_pattern(&dev, &pattern).is_ok());

    for (i, &byte) in dev.data.iter().enumerate() {
        let expected = pattern[i % pattern.len()];
        assert_eq!(
            byte, expected,
            "Byte at position {} should be 0x{:02x}, got 0x{:02x}",
            i, expected, byte
        );
    }
}

#[test]
fn test_entropy_calculation() {
    let all_zeros = vec![0u8; 1000];
    let entropy = EnhancedVerification::calculate_entropy(&all_zeros);
    assert!(entropy < 100, "All zeros should have near-zero entropy");

    let all_ones = vec![0xFF; 1000];
    let entropy = EnhancedVerification::calculate_entropy(&all_ones);
    assert!(entropy < 100, "All ones should have near-zero entropy");

    let mut perfect = vec![0u8; 256];
    for i in 0..256 {
        perfect[i] = i as u8;
    }
    let entropy = EnhancedVerification::calculate_entropy(&perfect);
    assert!(entropy > 7900, "Perfect distribution should have max entropy");

    let mut real_random = vec![0u8; 4096];
    sayonara_wipe::rng::fill_random(&mut real_random);
    let entropy = EnhancedVerification::calculate_entropy(&real_random);
    assert!(entropy > 7500, "Random data should have high entropy");
    assert!(entropy <= 8000, "8 bits per byte is the ceiling");
}

#[test]
fn test_checkpoint_operations() {
    let test_device = "/dev/test_device";
    let test_pass = 15;
    let test_size = 1024 * 1024 * 1024;
    let encoding = DriveEncoding::PRML;

    let mut store = CheckpointStore::new();
    store.save_checkpoint(test_device, test_pass, test_size, encoding);

    let loaded = store.load_checkpoint(test_device);
    assert!(loaded.is_some(), "Checkpoint should be loaded");

    let checkpoint = loaded.unwrap();
    assert_eq!(checkpoint.device_path, test_device);
    assert_eq!(checkpoint.current_pass, test_pass);
    assert_eq!(checkpoint.total_size, test_size);
    assert_eq!(checkpoint.encoding, DriveEncoding::PRML);

    store.delete_checkpoint(test_device);

    let deleted = store.load_checkpoint(test_device);
    assert!(deleted.is_none(), "Checkpoint should be deleted");
}

#[test]
fn test_encoding_detection() {
    let encoding = GutmannWipe::detect_drive_encoding("/dev/null");

    match encoding {
        DriveEncoding::MFM | DriveEncoding::RLL | DriveEncoding::PRML | DriveEncoding::Unknown => {
        }
    }
}

#[test]
fn test_optimized_patterns() {
    let mfm_patterns = GutmannWipe::get_optimized_patterns(DriveEncoding::MFM);
    assert!(mfm_patterns.len() < 35, "MFM should use subset of patterns");
    assert!(mfm_patterns.contains(&6), "MFM should include MFM-specific patterns");

    let rll_patterns = GutmannWipe::get_optimized_patterns(DriveEncoding::RLL);
    assert!(rll_patterns.len() < 35, "RLL should use subset of patterns");
    assert!(rll_patterns.contains(&26), "RLL should include RLL-specific patterns");

    let prml_patterns = GutmannWipe::get_optimized_patterns(DriveEncoding::PRML);
    assert!(prml_patterns.len() < 35, "PRML should use subset of patterns");

    let unknown_patterns = GutmannWipe::get_optimized_patterns(DriveEncoding::Unknown);
    assert_eq!(unknown_patterns.len(), 35, "Unknown should use all 35 patterns");
}

#[test]
fn test_verification_catches_errors() {
    let test_size = 10 * 1024;
    let dev = MemDevice::new(test_size, 0xFF);

    let expected_pattern = vec![0x55];
    let result = GutmannWipe::verify_pattern(&dev, &expected_pattern);

    assert!(result.is_err(), "Verification should fail for wrong pattern");
}

#[test]
fn test_pattern_generation_performance() {
    const BUFFER_SIZE: usize = 4 * 1024 * 1024;
    let mut buffer = vec![0u8; BUFFER_SIZE];

    let pattern: &[u8] = &[0x92, 0x49, 0x24];
    let start = Instant::now();

    let block = pattern.repeat(BUFFER_SIZE / pattern.len() + 1);
    buffer.copy_from_slice(&block[..BUFFER_SIZE]);

    let duration = start.elapsed();

    for (i, &byte) in buffer.iter().enumerate().step_by(4099) {
        assert_eq!(byte, pattern[i % pattern.len()]);
    }

    assert!(
        duration.as_millis() < 100,
        "Pattern generation took {}ms, should be <100ms",
        duration.as_millis()
    );
}

#[test]
fn test_resume_after_interruption() {
    let test_device = "/dev/test_resume";
    let test_size = 100 * 1024 * 1024;
    let encoding = DriveEncoding::PRML;

    let mut store = CheckpointStore::new();
    store.save_checkpoint(test_device, 10, test_size, encoding);

    let checkpoint = store.load_checkpoint(test_device);
    assert!(checkpoint.is_some());

    let cp = checkpoint.unwrap();
    assert_eq!(cp.current_pass, 10, "Should resume from pass 10");

    store.delete_checkpoint(test_device);
}
