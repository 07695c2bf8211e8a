//! The orchestrator: creation, pattern generation, algorithm resolution,
//! the wiper dispatch table, the hidden-area plan, the session state
//! machine, and the verification threshold gate.

use sayonara_wipe::hidden::{HPADCOManager, HiddenArea, RemovalStep};
use sayonara_wipe::orchestrator::{DriveSession, WipeOrchestrator, WiperMethod};
use sayonara_wipe::report::check_confidence;
use sayonara_wipe::{
    Algorithm, DriveCapabilities, DriveError, DriveInfo, DriveType, EncryptionStatus,
    HPADCOHandling, WipeConfig, WipeStatus,
};

#[test]
fn test_orchestrator_creation() {
    let config = WipeConfig::default();
    let result = WipeOrchestrator::new("/dev/null".to_string(), config);

    let _ = result;
}

#[test]
fn test_pattern_generation() {
    let config = WipeConfig { algorithm: Algorithm::Zero, ..Default::default() };

    let orchestrator = WipeOrchestrator {
        device_path: "/dev/null".to_string(),
        config: config.clone(),
        drive_info: DriveInfo {
            device_path: "/dev/null".to_string(),
            model: "Test".to_string(),
            serial: "TEST123".to_string(),
            size: 1024 * 1024 * 1024,
            drive_type: DriveType::HDD,
            encryption_status: EncryptionStatus::NoEncryption,
            capabilities: Default::default(),
            health_status: None,
            temperature_celsius: None,
        },
    };

    let pattern = orchestrator.generate_pattern(1024).unwrap();
    assert_eq!(pattern.len(), 1024);
    assert!(pattern.iter().all(|&b| b == 0));
}

fn info_with(drive_type: DriveType, caps: DriveCapabilities) -> DriveInfo {
    DriveInfo {
        device_path: "/dev/sdx".to_string(),
        model: "Model".to_string(),
        serial: "Serial".to_string(),
        size: 1 << 30,
        drive_type,
        encryption_status: EncryptionStatus::NoEncryption,
        capabilities: caps,
        health_status: None,
        temperature_celsius: None,
    }
}

#[test]
fn automatic_algorithm_resolution_prefers_crypto_erase() {
    let mut caps = DriveCapabilities::default();
    caps.crypto_erase = true;
    caps.secure_erase = true;
    let config = WipeConfig::default();
    let info = info_with(DriveType::SSD, caps);
    assert_eq!(WipeOrchestrator::resolve_algorithm(&config, &info), Algorithm::CryptoErase);

    let mut nvme_caps = DriveCapabilities::default();
    nvme_caps.sanitize_supported = true;
    let nvme = info_with(DriveType::NVMe, nvme_caps);
    assert_eq!(WipeOrchestrator::resolve_algorithm(&config, &nvme), Algorithm::Sanitize);

    let bare = info_with(DriveType::HDD, DriveCapabilities::default());
    assert_eq!(WipeOrchestrator::resolve_algorithm(&config, &bare), Algorithm::DoD5220);

    let explicit = WipeConfig { algorithm: Algorithm::Gutmann, ..Default::default() };
    assert_eq!(WipeOrchestrator::resolve_algorithm(&explicit, &bare), Algorithm::Gutmann);
}

#[test]
fn wiper_dispatch_follows_media_class() {
    let plain = DriveCapabilities::default();
    assert_eq!(
        WipeOrchestrator::wiper_method(&info_with(DriveType::SMR, plain), false).unwrap(),
        WiperMethod::ZoneResetAndFill
    );
    assert_eq!(
        WipeOrchestrator::wiper_method(&info_with(DriveType::Optane, plain), false).unwrap(),
        WiperMethod::InstantSecureErase
    );
    assert_eq!(
        WipeOrchestrator::wiper_method(&info_with(DriveType::EMMC, plain), false).unwrap(),
        WiperMethod::EmmcEraseSequence
    );
    assert_eq!(
        WipeOrchestrator::wiper_method(&info_with(DriveType::HDD, plain), false).unwrap(),
        WiperMethod::OverwriteDoD
    );

    let raid_refused = WipeOrchestrator::wiper_method(&info_with(DriveType::RAID, plain), false);
    assert!(
        matches!(raid_refused, Err(DriveError::Unsupported(_))),
        "RAID members need the force flag"
    );
    assert_eq!(
        WipeOrchestrator::wiper_method(&info_with(DriveType::RAID, plain), true).unwrap(),
        WiperMethod::RaidScrubThenOverwrite
    );
}

#[test]
fn removal_plan_orders_dco_before_hpa() {
    let plan = HPADCOManager::removal_plan(HPADCOHandling::PermanentRemove, true, true);
    assert_eq!(plan, vec![RemovalStep::RemoveDco, RemovalStep::RemoveHpaPermanent]);

    let temp = HPADCOManager::removal_plan(HPADCOHandling::TemporaryRemove, true, true);
    assert_eq!(temp, vec![RemovalStep::RemoveHpaTemporary]);

    let none = HPADCOManager::removal_plan(HPADCOHandling::Detect, true, true);
    assert!(none.is_empty());
}

#[test]
fn hidden_area_size() {
    let area = HiddenArea { current_max_sectors: 900, native_max_sectors: 1000 };
    assert_eq!(area.hidden_size_bytes(512), 100 * 512);
}

/// A wipe with `TemporaryRemove` on a device whose native max is 1000
/// and current max is 900, cancelled mid-wipe: the restore instruction
/// for 900 sectors is handed out once only and the status is Aborted.
#[test]
fn hpa_restored_on_cancel() {
    let mut session = DriveSession::new();
    session.note_hpa_removed(900);

    let restore = session.cancel();

    assert_eq!(restore, Some(900), "restore_hpa(900) is instructed");
    assert_eq!(session.restore_count, 1, "restored exactly once");
    assert_eq!(session.status, WipeStatus::Aborted);
}

#[test]
fn every_session_exit_is_terminal_and_restores() {
    let mut done = DriveSession::new();
    done.note_hpa_removed(123);
    let restore = done.complete();
    assert_eq!(restore, Some(123));
    assert_eq!(done.status, WipeStatus::Completed);
    assert!(done.hpa_restored);

    let mut failed = DriveSession::new();
    failed.note_hpa_removed(77);
    let restore = failed.fail();
    assert_eq!(restore, Some(77));
    assert_eq!(failed.status, WipeStatus::Failed);
    assert!(failed.hpa_restored);

    let mut plain = DriveSession::new();
    let restore = plain.complete();
    assert_eq!(restore, None, "nothing to restore without a removal");
    assert_eq!(plain.status, WipeStatus::Completed);
}

/// Post-wipe confidence of 94.0% against a 95.0% requirement: the
/// threshold check fails with both values, in tenths.
#[test]
fn verification_threshold_enforced() {
    let result = check_confidence(940, 950);
    match result {
        Err(DriveError::VerificationBelowThreshold { got_tenths, required_tenths }) => {
            assert_eq!(got_tenths, 940);
            assert_eq!(required_tenths, 950);
        }
        _ => panic!("expected VerificationBelowThreshold"),
    }

    assert!(check_confidence(950, 950).is_ok());
    assert!(check_confidence(1000, 950).is_ok());
}

#[test]
fn config_parsing_maps_names() {
    let c = sayonara_wipe::config::build_wipe_config("DoD", true, "remove-temp", true, true, 65, true)
        .unwrap();
    assert_eq!(c.algorithm, Algorithm::DoD5220);
    assert_eq!(c.handle_hpa_dco, HPADCOHandling::TemporaryRemove);
    assert_eq!(c.max_temperature_celsius, Some(65));

    let auto = sayonara_wipe::config::build_wipe_config("auto", false, "detect", false, false, 70, false)
        .unwrap();
    assert_eq!(auto.algorithm, Algorithm::SecureErase);

    assert!(sayonara_wipe::config::build_wipe_config("bogus", true, "detect", true, true, 65, true)
        .is_err());
}

#[test]
fn basic_drive_info_from_path() {
    let nvme = WipeOrchestrator::create_basic_drive_info("/dev/nvme0n1").unwrap();
    assert_eq!(nvme.drive_type, DriveType::NVMe);

    let emmc = WipeOrchestrator::create_basic_drive_info("/dev/mmcblk0").unwrap();
    assert_eq!(emmc.drive_type, DriveType::EMMC);

    let hdd = WipeOrchestrator::create_basic_drive_info("/dev/sda").unwrap();
    assert_eq!(hdd.drive_type, DriveType::HDD);
    assert_eq!(hdd.size, 100 * 1024 * 1024 * 1024);
}
