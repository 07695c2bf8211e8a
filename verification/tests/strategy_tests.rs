//! Freeze-mitigation strategies: names, risk ranking, compatibility, and
//! the ascending-risk selection order.

use sayonara_wipe::freeze::{
    AcpiSleep, ControllerVendor, FreezeMitigation, FreezeReason, HostUnfreeze, IpmiPower,
    PcieHotReset, StrategyDescriptor, UsbSuspend, VendorSpecific,
};

#[test]
fn test_all_strategies_have_names() {
    assert_eq!(PcieHotReset::new().name(), "PCIe Hot Reset");
    assert_eq!(AcpiSleep::new().name(), "ACPI Sleep");
    assert_eq!(UsbSuspend::new().name(), "USB Suspend/Resume");
    assert_eq!(IpmiPower::new().name(), "IPMI Power Cycle");
}

#[test]
fn test_risk_levels() {
    assert!(PcieHotReset::new().risk_level() >= 5);
    assert!(AcpiSleep::new().risk_level() >= 8);
    assert_eq!(IpmiPower::new().risk_level(), 10);
}

#[test]
fn test_vendor_specific_compatibility() {
    let strategy = VendorSpecific::new();

    assert!(strategy.is_compatible_with(&FreezeReason::RaidController));
    assert!(strategy.is_compatible_with(&FreezeReason::ControllerPolicy));
    assert!(!strategy.is_compatible_with(&FreezeReason::OsSecurity));
}

#[test]
fn test_vendor_specific_properties() {
    let strategy = VendorSpecific::new();

    assert_eq!(strategy.name(), "Vendor-Specific Commands");
    assert_eq!(strategy.risk_level(), 6);
    assert_eq!(strategy.estimated_duration(), 15);
}

#[test]
fn host_unfreeze_is_lowest_risk() {
    let host = HostUnfreeze::new();
    assert_eq!(host.risk_level(), 2);
    assert!(host.is_compatible_with(&FreezeReason::SecurityLock));
    assert!(UsbSuspend::new().risk_level() > host.risk_level());
}

/// Four mock strategies with risks {2, 6, 7, 10}, all compatible and
/// available; only the risk-7 one succeeds. The risk-2 and risk-6
/// strategies are attempted (and fail) before risk 7 runs, and risk 10
/// is never invoked.
#[test]
fn freeze_selection_stops_at_first_success() {
    let mock = |risk: u8| StrategyDescriptor { risk_level: risk, compatible: true, available: true };
    let strategies = vec![mock(10), mock(2), mock(7), mock(6)];
    // outcomes indexed by registration order: only the risk-7 strategy succeeds
    let outcomes = vec![false, false, true, false];

    let result = FreezeMitigation::run_mitigation(&strategies, &outcomes);

    assert_eq!(result.winner, Some(2), "the risk-7 strategy wins");
    let attempted_risks: Vec<u8> =
        result.attempts.iter().map(|&i| strategies[i].risk_level).collect();
    assert_eq!(attempted_risks, vec![2, 6, 7]);
    assert!(!result.attempts.contains(&0), "risk 10 is never invoked");
}

#[test]
fn freeze_selection_exhausts_all_on_failure() {
    let mock = |risk: u8, ok: bool| StrategyDescriptor {
        risk_level: risk,
        compatible: ok,
        available: true,
    };
    let strategies = vec![mock(3, true), mock(9, true), mock(5, false)];
    let outcomes = vec![false, false, false];

    let result = FreezeMitigation::run_mitigation(&strategies, &outcomes);

    assert_eq!(result.winner, None);
    let attempted_risks: Vec<u8> =
        result.attempts.iter().map(|&i| strategies[i].risk_level).collect();
    assert_eq!(attempted_risks, vec![3, 9], "only eligible strategies, ascending risk");
}

#[test]
fn vendor_detection_classifies_sysfs_text() {
    let lspci = Vec::new();
    let dell = b"DELL PERC H730".to_vec();
    assert_eq!(VendorSpecific::detect_vendor(&dell, &lspci), ControllerVendor::DellPerc);
    let adaptec = b"Adaptec RAID".to_vec();
    assert_eq!(VendorSpecific::detect_vendor(&adaptec, &lspci), ControllerVendor::Adaptec);
    let nothing = b"QEMU".to_vec();
    assert_eq!(VendorSpecific::detect_vendor(&nothing, &lspci), ControllerVendor::Unknown);
}
