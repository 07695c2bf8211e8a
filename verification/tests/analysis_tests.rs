//! The analyzers in isolation: entropy fixed points, chi-square,
//! suspicious-data detection, pattern analysis, confidence scoring and
//! compliance, SMART parsing, and the detection helpers.

use sayonara_wipe::detection::{DriveDetector, HDDWipe, NVMeWipe, NvmeEraseMethod, SSDWipe};
use sayonara_wipe::report::check_confidence;
use sayonara_wipe::smart::{RiskLevel, SMARTMonitor, SelfTestResult, SelfTestType};
use sayonara_wipe::verification::{
    EnhancedVerification, PatternAnalysis, PostWipeAnalysis, PreWipeTestResults,
    SectorSamplingResult, StatisticalTests,
};
use sayonara_wipe::config::{wait_for_safe_temperature_decision, TemperatureWait};
use sayonara_wipe::ui::{step_percent, LiveUSBVerification, WipeProgress};
use sayonara_wipe::selftest::sample_size_for;
use sayonara_wipe::sed::{SEDInfo, SEDManager, SEDType};
use sayonara_wipe::verification::EnhancedVerification as EV;
use sayonara_wipe::{DriveError, DriveType, HealthStatus};

fn clean_post(entropy_milli: u64) -> PostWipeAnalysis {
    PostWipeAnalysis {
        entropy_milli,
        chi_square_milli: 250_000,
        pattern_analysis: PatternAnalysis {
            repeating_patterns_found: false,
            known_file_signatures: false,
            structured_data_detected: false,
            compression_ratio_milli: 1000,
        },
        statistical_tests: StatisticalTests {
            runs_test_passed: true,
            monobit_test_passed: true,
            poker_test_passed: true,
            serial_test_passed: true,
            autocorrelation_test_passed: true,
        },
        sector_sampling: SectorSamplingResult {
            total_sectors_sampled: 1000,
            suspicious_sectors: 0,
            entropy_distribution_milli: Vec::new(),
            anomaly_locations: Vec::new(),
        },
    }
}

fn good_pre() -> PreWipeTestResults {
    PreWipeTestResults {
        test_pattern_detection: true,
        recovery_tool_simulation: true,
        sensitivity_calibration: 100,
        false_positive_per_mille: 0,
        false_negative_per_mille: 0,
    }
}

#[test]
fn entropy_exact_fixed_points() {
    // one of each byte value: exactly 8 bits per byte
    let mut uniform = vec![0u8; 256];
    for i in 0..256 {
        uniform[i] = i as u8;
    }
    assert_eq!(EnhancedVerification::calculate_entropy(&uniform), 8000);

    // each byte value exactly four times: still exactly 8 bits
    let mut uniform4 = Vec::new();
    for _ in 0..4 {
        for b in 0..256 {
            uniform4.push(b as u8);
        }
    }
    assert_eq!(EnhancedVerification::calculate_entropy(&uniform4), 8000);

    // two values in equal shares: exactly 1 bit per byte
    let mut coin = vec![0u8; 1024];
    for i in 0..512 {
        coin[i] = 0xFF;
    }
    assert_eq!(EnhancedVerification::calculate_entropy(&coin), 1000);

    // constant data: zero bits
    assert_eq!(EnhancedVerification::calculate_entropy(&vec![7u8; 4096]), 0);

    assert_eq!(EnhancedVerification::calculate_entropy(&Vec::new()), 0);
}

#[test]
fn chi_square_flat_histogram_is_zero() {
    let mut uniform = vec![0u8; 256];
    for i in 0..256 {
        uniform[i] = i as u8;
    }
    assert_eq!(EnhancedVerification::chi_square_test(&uniform), 0);

    // constant data of length n scores 255000 * n milli
    let constant = vec![0x41u8; 1000];
    assert_eq!(EnhancedVerification::chi_square_test(&constant), 255 * 1000 * 1000);
}

#[test]
fn suspicious_data_detection() {
    let mut marker = b"......SENSITIVE.......................".to_vec();
    assert!(marker.len() >= 32);
    assert!(EnhancedVerification::detect_suspicious_data(&marker));

    marker = b"%PDF-1.4 ..............................".to_vec();
    assert!(EnhancedVerification::detect_suspicious_data(&marker));

    let short = b"SENSITIVE".to_vec();
    assert!(!EnhancedVerification::detect_suspicious_data(&short), "short buffers never flag");

    let mut random = vec![0u8; 4096];
    sayonara_wipe::rng::fill_random(&mut random);
    // random data has high entropy; only an (unlikely) keyword hit flags it
    let flagged = EnhancedVerification::detect_suspicious_data(&random);
    let entropy = EnhancedVerification::calculate_entropy(&random);
    assert!(entropy >= 6000);
    let _ = flagged;
}

#[test]
fn pattern_analysis_flags_repeats_and_magics() {
    let repeating = vec![0x55u8; 4096];
    let analysis = EnhancedVerification::analyze_patterns(&repeating);
    assert!(analysis.repeating_patterns_found);
    assert!(analysis.structured_data_detected);
    assert!(!analysis.known_file_signatures);
    assert_eq!(analysis.compression_ratio_milli, 1000 / 256);

    let mut with_magic = vec![0u8; 64];
    with_magic[10] = 0x25; // %
    with_magic[11] = 0x50; // P
    with_magic[12] = 0x44; // D
    with_magic[13] = 0x46; // F
    let analysis = EnhancedVerification::analyze_patterns(&with_magic);
    assert!(analysis.known_file_signatures);

    let mut random = vec![0u8; 8192];
    sayonara_wipe::rng::fill_random(&mut random);
    let analysis = EnhancedVerification::analyze_patterns(&random);
    assert!(!analysis.repeating_patterns_found);
    assert!(!analysis.structured_data_detected);
}

#[test]
fn confidence_weights_add_up() {
    // every check passed, entropy above 7.8: the full 100.0%
    let conf = EnhancedVerification::calculate_confidence_level(&good_pre(), &clean_post(7900));
    assert_eq!(conf, 1000);

    // entropy in (7.5, 7.8]: 5 points of 100 lost
    let conf = EnhancedVerification::calculate_confidence_level(&good_pre(), &clean_post(7600));
    assert_eq!(conf, 950);

    // entropy at zero: the 30% entropy weight is gone
    let conf = EnhancedVerification::calculate_confidence_level(&good_pre(), &clean_post(0));
    assert_eq!(conf, 700);

    // confidence is monotone in the sector cleanliness
    let full = EnhancedVerification::calculate_confidence_level(&good_pre(), &clean_post(7900));
    let mut dirty = clean_post(7900);
    dirty.sector_sampling.suspicious_sectors = 500;
    let conf_dirty = EnhancedVerification::calculate_confidence_level(&good_pre(), &dirty);
    assert!(conf_dirty <= full);
    assert_eq!(conf_dirty, 950, "half the sectors dirty costs half the sector weight");
}

#[test]
fn compliance_thresholds() {
    let post = clean_post(7900);
    let standards = EnhancedVerification::determine_compliance(&post, 995);
    assert!(standards.iter().any(|s| s == "DoD 5220.22-M"));
    assert!(standards.iter().any(|s| s == "NIST 800-88 Rev. 1"));
    assert!(standards.iter().any(|s| s == "PCI DSS v3.2.1"));
    assert!(standards.iter().any(|s| s == "GDPR Article 32"));

    let standards = EnhancedVerification::determine_compliance(&post, 960);
    assert!(!standards.iter().any(|s| s == "DoD 5220.22-M"));
    assert!(standards.iter().any(|s| s == "HIPAA Security Rule"));

    let standards = EnhancedVerification::determine_compliance(&post, 800);
    assert!(standards.iter().all(|s| s == "NSA Storage Device Sanitization"));
}

#[test]
fn verification_report_carries_confidence() {
    let report = EnhancedVerification::generate_verification_report(
        "/dev/sdz",
        good_pre(),
        clean_post(7900),
    );
    assert_eq!(report.confidence_tenths, 1000);
    assert_eq!(report.device_path, "/dev/sdz");
    assert!(report.compliance_standards.iter().any(|s| s == "DoD 5220.22-M"));
    assert!(report.recommendations.len() >= 2);
    assert!(check_confidence(report.confidence_tenths, 950).is_ok());
}

#[test]
fn ata_smart_parsing() {
    let output = b"smartctl 7.2\nSMART overall-health self-assessment test result: PASSED\n\
ID# ATTRIBUTE_NAME          FLAG     VALUE WORST THRESH TYPE      UPDATED  WHEN_FAILED RAW_VALUE\n\
  5 Reallocated_Sector_Ct   0x0033   100   100   010    Pre-fail  Always       -       0\n\
194 Temperature_Celsius     0x0022   062   045   000    Old_age   Always       -       38\n\
197 Current_Pending_Sector  0x0032   100   100   000    Old_age   Always       -       0\n"
        .to_vec();
    let health = SMARTMonitor::parse_ata_smart(&output).unwrap();
    assert_eq!(health.temperature_celsius, Some(38));
    assert_eq!(health.reallocated_sectors, Some(0));
    assert_eq!(health.pending_sectors, Some(0));
    assert_eq!(health.overall_health, HealthStatus::Good);
    assert_eq!(health.attributes.len(), 3);
}

#[test]
fn nvme_smartctl_parsing() {
    let output = b"Temperature: 35 Celsius\nPower On Hours: 1,234\n\
Media and Data Integrity Errors: 0\nPercentage Used: 3%\nAvailable Spare: 100%\n"
        .to_vec();
    let health = SMARTMonitor::parse_nvme_smart_smartctl(&output).unwrap();
    assert_eq!(health.temperature_celsius, Some(35));
    assert_eq!(health.power_on_hours, Some(1234));
    assert_eq!(health.wear_level, Some(3));
    assert_eq!(health.available_spare, Some(100));
    assert_eq!(health.overall_health, HealthStatus::Good);
}

#[test]
fn health_classification_cascade() {
    let output = b"ID# ATTRIBUTE_NAME          FLAG     VALUE WORST THRESH TYPE      UPDATED  WHEN_FAILED RAW_VALUE\n\
  5 Reallocated_Sector_Ct   0x0033   100   100   010    Pre-fail  Always       -       250\n"
        .to_vec();
    let health = SMARTMonitor::parse_ata_smart(&output).unwrap();
    assert_eq!(health.reallocated_sectors, Some(250));
    assert_eq!(health.overall_health, HealthStatus::Critical);

    let prediction = SMARTMonitor::predict_failure(&health);
    assert_eq!(prediction.risk_score, 40);
    assert_eq!(prediction.risk_level, RiskLevel::Medium);
    assert_eq!(prediction.estimated_days_remaining, Some(365));
    assert!(!prediction.failure_indicators.is_empty());
}

#[test]
fn self_test_helpers() {
    assert_eq!(SMARTMonitor::self_test_arg(SelfTestType::Short), "short");
    assert_eq!(SMARTMonitor::self_test_arg(SelfTestType::Extended), "long");

    let passed = b"# 1  Short offline  Completed without error  00%  100  -".to_vec();
    assert!(matches!(SMARTMonitor::check_self_test_results(&passed), SelfTestResult::Passed));

    let running = b"# 1  Short offline  In progress  70%  100  -".to_vec();
    match SMARTMonitor::check_self_test_results(&running) {
        SelfTestResult::InProgress(p) => assert_eq!(p, 70),
        _ => panic!("expected in-progress"),
    }

    let silent = b"No self-tests have been logged.".to_vec();
    assert!(matches!(SMARTMonitor::check_self_test_results(&silent), SelfTestResult::NotRun));
}

#[test]
fn extract_helpers() {
    assert_eq!(
        SMARTMonitor::extract_number_from_line(&b"Power Cycles: 12,345".to_vec()),
        Some(12345)
    );
    assert_eq!(SMARTMonitor::extract_percentage(&b"used: 37% of budget".to_vec()), Some(37));
    assert_eq!(SMARTMonitor::extract_hex_value(&b"critical_warning : 0x1f".to_vec()), Some(0x1f));
    assert_eq!(SMARTMonitor::extract_number(&b"power_on_hours : 9876".to_vec()), Some(9876));
    assert_eq!(SMARTMonitor::parse_raw_value(&b"1234".to_vec()), 1234);
    assert_eq!(SMARTMonitor::parse_raw_value(&b"0x10".to_vec()), 16);
    assert_eq!(SMARTMonitor::parse_raw_value(&b"100 (Min/Max 24/45)".to_vec()), 100);
}

#[test]
fn drive_type_detection() {
    let hdd_output = b"Rotation Rate: 7200 rpm\n".to_vec();
    assert_eq!(DriveDetector::determine_drive_type("/dev/sda", &hdd_output), DriveType::HDD);

    let ssd_output = b"Rotation Rate: Solid State Device\n".to_vec();
    assert_eq!(DriveDetector::determine_drive_type("/dev/sdb", &ssd_output), DriveType::SSD);

    assert_eq!(
        DriveDetector::determine_drive_type("/dev/nvme0n1", &Vec::new()),
        DriveType::NVMe
    );

    assert_eq!(DriveDetector::determine_drive_type("/dev/sdc", &Vec::new()), DriveType::Unknown);

    assert!(DriveDetector::should_skip_device(&b"loop0".to_vec()));
    assert!(DriveDetector::should_skip_device(&b"dm-3".to_vec()));
    assert!(!DriveDetector::should_skip_device(&b"sda".to_vec()));
}

#[test]
fn identity_field_extraction() {
    let output = b"Device Model:     Samsung SSD 870\nSerial Number:    S1234XYZ\n".to_vec();
    let model = DriveDetector::extract_field(&output, &b"Device Model:".to_vec()).unwrap();
    assert_eq!(model, b"Samsung SSD 870".to_vec());
    let missing = DriveDetector::extract_field(&output, &b"Firmware Version:".to_vec());
    assert!(missing.is_none());
}

#[test]
fn hardware_erase_support_checks() {
    let info = b"Format NVM Supported\nSanitize Operation Supported\n".to_vec();
    assert!(NVMeWipe::supports_format_nvm(&info));
    assert!(NVMeWipe::supports_sanitize(&info));
    assert_eq!(NVMeWipe::select_erase_method(&info).unwrap(), NvmeEraseMethod::FormatNvm);

    let sanitize_only = b"Sanitize Operation Supported\n".to_vec();
    assert_eq!(
        NVMeWipe::select_erase_method(&sanitize_only).unwrap(),
        NvmeEraseMethod::SanitizeCryptoErase
    );
    assert!(NVMeWipe::select_erase_method(&b"nothing".to_vec()).is_err());

    let hdparm = b"Security:\n\tsupported: enhanced erase\n\tnot frozen\n".to_vec();
    assert!(HDDWipe::supports_secure_erase(&hdparm));
    assert!(SSDWipe::is_secure_erase_supported(&hdparm));
    assert!(SSDWipe::is_frozen(&b"\tfrozen\n".to_vec()));
}

#[test]
fn temperature_thresholds_by_class() {
    let output = b"Temperature: 35 Celsius\n".to_vec();
    let health = SMARTMonitor::parse_nvme_smart_smartctl(&output).unwrap();
    let mon = SMARTMonitor::monitor_temperature("/dev/nvme0n1", &health);
    assert_eq!(mon.current_celsius, 35);
    assert_eq!(mon.warning_threshold, 60);
    assert_eq!(mon.critical_threshold, 70);

    let mon = SMARTMonitor::monitor_temperature("/dev/sda", &health);
    assert_eq!(mon.warning_threshold, 50);

    assert!(SMARTMonitor::check_safe_to_operate(&health));

    assert_eq!(wait_for_safe_temperature_decision(45, 50, 0, 300), TemperatureWait::Safe);
    assert_eq!(wait_for_safe_temperature_decision(70, 50, 10, 300), TemperatureWait::KeepWaiting);
    assert_eq!(wait_for_safe_temperature_decision(70, 50, 301, 300), TemperatureWait::TimedOut);
}

#[test]
fn sample_size_clamping() {
    // 1.0% of 100 GiB hits the 1 GiB ceiling exactly
    assert_eq!(sample_size_for(100 * 1024 * 1024 * 1024, 1000), 1024 * 1024 * 1024);
    // a small device is clamped up to the 10 MiB floor
    assert_eq!(sample_size_for(1_000_000, 1000), 10 * 1024 * 1024);
    // a large sample is clamped down to the 1 GiB ceiling
    assert_eq!(sample_size_for(1 << 41, 100_000), 1024 * 1024 * 1024);
}

#[test]
fn progress_steps_reach_one_hundred() {
    let n = 9;
    let mut last = 0;
    for i in 0..n {
        let p = step_percent(i, n);
        assert!(p >= last, "progress never goes backwards");
        last = p;
    }
    assert_eq!(last, 100, "the final step reports completion");

    let progress = WipeProgress {
        percent: step_percent(2, n),
        step: "Overwriting sectors".to_string(),
        status: "running".to_string(),
    };
    assert_eq!(progress.percent, 33);

    assert_eq!(LiveUSBVerification::creation_instructions().len(), 4);
}

#[test]
fn sed_crypto_erase_refusal_cascade() {
    let no_sed = SEDInfo {
        sed_type: SEDType::NoSed,
        locked: false,
        enabled: false,
        frozen: false,
        supports_crypto_erase: false,
    };
    assert!(matches!(
        SEDManager::crypto_erase_plan(&no_sed, false),
        Err(DriveError::Unsupported(_))
    ));

    let no_crypto = SEDInfo { sed_type: SEDType::Opal, supports_crypto_erase: false, ..no_sed };
    assert!(matches!(
        SEDManager::crypto_erase_plan(&no_crypto, true),
        Err(DriveError::Unsupported(_))
    ));

    let locked = SEDInfo {
        sed_type: SEDType::Opal,
        locked: true,
        supports_crypto_erase: true,
        ..no_sed
    };
    assert!(matches!(SEDManager::crypto_erase_plan(&locked, false), Err(DriveError::Usage(_))));
    let plan = SEDManager::crypto_erase_plan(&locked, true).unwrap();
    assert!(plan.unlock_first, "a locked drive is unlocked first");

    let open_drive = SEDInfo { locked: false, ..locked };
    let plan = SEDManager::crypto_erase_plan(&open_drive, false).unwrap();
    assert!(!plan.unlock_first);
    assert!(SEDManager::unlock_needed(&locked));
    assert!(!SEDManager::unlock_needed(&open_drive));
}

#[test]
fn probe_grading_matches_outcomes() {
    let good = EV::grade_probe_results(true, true);
    assert!(good.test_pattern_detection && good.recovery_tool_simulation);
    assert_eq!(good.sensitivity_calibration, 100);
    assert_eq!(good.false_negative_per_mille, 0);

    let bad = EV::grade_probe_results(false, false);
    assert_eq!(bad.sensitivity_calibration, 50);
    assert_eq!(bad.false_negative_per_mille, 1000);
}

#[test]
fn field_extraction_finds_first_matching_line() {
    // two lines mention the field; the first one wins
    let output = b"Model Family: Alpha\nDevice Model:   One\nDevice Model: Two\n".to_vec();
    let value = DriveDetector::extract_field(&output, &b"Device Model:".to_vec()).unwrap();
    assert_eq!(value, b"One".to_vec());

    // only the second colon-separated segment is the value
    let with_colon = b"Serial Number: ABC:DEF\n".to_vec();
    let value = DriveDetector::extract_field(&with_colon, &b"Serial Number:".to_vec()).unwrap();
    assert_eq!(value, b"ABC".to_vec());

    // a matching line without any colon yields nothing
    let odd = b"serialnumber\n".to_vec();
    assert!(DriveDetector::extract_field(&odd, &b"serialnumber".to_vec()).is_none());
}

#[test]
fn lifetime_writes_scale_sectors() {
    let output = b"241 Total_LBAs_Written 0x0032 100 100 000 Old_age Always - 123456\n".to_vec();
    assert_eq!(SMARTMonitor::get_lifetime_writes(&output), Some(123456 * 512));
    assert_eq!(SMARTMonitor::get_lifetime_writes(&b"nothing here".to_vec()), None);
}
