//! Freeze mitigation: the built-in unfreeze strategies with their risk
//! ranking, and the selection engine that tries compatible, available
//! strategies in ascending risk order until one succeeds.

use vstd::prelude::*;
use crate::bytes::lower_seq;

verus! {

/// Why a drive reports itself frozen.
#[derive(Debug, Clone, Copy, PartialEq, Eq, Structural)]
pub enum FreezeReason {
    SecurityLock,
    BiosSetFrozen,
    ControllerPolicy,
    RaidController,
    OsSecurity,
    Unknown,
}

/// Outcome of one strategy execution.
#[derive(Debug, Clone)]
pub struct StrategyResult {
    pub success: bool,
    pub message: String,
}

impl StrategyResult {
    /// A successful outcome carrying a message.
    pub fn success(message: &str) -> (r: Self)
        ensures
            r.success == true,
            r.message@ == message@,
    {
        StrategyResult { success: true, message: message.to_owned() }
    }
}

/// Host-issued security-unfreeze command: the least invasive option.
pub struct HostUnfreeze;

impl HostUnfreeze {
    pub fn new() -> (r: Self) {
        HostUnfreeze
    }

    pub fn name(&self) -> (r: &'static str)
        ensures
            r@ == "Host Unfreeze Command"@,
    {
        "Host Unfreeze Command"
    }

    pub fn description(&self) -> (r: &'static str)
        ensures
            r@ == "Issues the vendor security-unfreeze command from the host"@,
    {
        "Issues the vendor security-unfreeze command from the host"
    }

    /// Applicable to plain security locks and unknown causes.
    pub fn is_compatible_with(&self, reason: &FreezeReason) -> (r: bool)
        ensures
            r == (*reason == FreezeReason::SecurityLock || *reason == FreezeReason::OsSecurity
                || *reason == FreezeReason::Unknown),
    {
        match reason {
            FreezeReason::SecurityLock => true,
            FreezeReason::OsSecurity => true,
            FreezeReason::Unknown => true,
            _ => false,
        }
    }

    pub fn risk_level(&self) -> (r: u8)
        ensures
            r == 2,
    {
        2
    }
}

/// PCIe remove-and-rescan of the controller function.
pub struct PcieHotReset;

impl PcieHotReset {
    pub fn new() -> (r: Self) {
        PcieHotReset
    }

    pub fn name(&self) -> (r: &'static str)
        ensures
            r@ == "PCIe Hot Reset"@,
    {
        "PCIe Hot Reset"
    }

    pub fn description(&self) -> (r: &'static str)
        ensures
            r@ == "Triggers PCIe hot-reset through sysfs to reset controller"@,
    {
        "Triggers PCIe hot-reset through sysfs to reset controller"
    }

    pub fn is_compatible_with(&self, reason: &FreezeReason) -> (r: bool)
        ensures
            r == (*reason == FreezeReason::ControllerPolicy || *reason == FreezeReason::Unknown),
    {
        match reason {
            FreezeReason::ControllerPolicy => true,
            FreezeReason::Unknown => true,
            _ => false,
        }
    }

    pub fn risk_level(&self) -> (r: u8)
        ensures
            r == 7,
    {
        7
    }
}

/// Whole-host ACPI sleep/wake cycle.
pub struct AcpiSleep;

impl AcpiSleep {
    pub fn new() -> (r: Self) {
        AcpiSleep
    }

    pub fn name(&self) -> (r: &'static str)
        ensures
            r@ == "ACPI Sleep"@,
    {
        "ACPI Sleep"
    }

    pub fn description(&self) -> (r: &'static str)
        ensures
            r@ == "System sleep/wake cycle (S3 state) to reset drive"@,
    {
        "System sleep/wake cycle (S3 state) to reset drive"
    }

    pub fn is_compatible_with(&self, reason: &FreezeReason) -> (r: bool)
        ensures
            r == (*reason == FreezeReason::BiosSetFrozen || *reason == FreezeReason::Unknown),
    {
        match reason {
            FreezeReason::BiosSetFrozen => true,
            FreezeReason::Unknown => true,
            _ => false,
        }
    }

    pub fn risk_level(&self) -> (r: u8)
        ensures
            r == 9,
    {
        9
    }
}

/// Deauthorize/reauthorize a USB-attached drive.
pub struct UsbSuspend;

impl UsbSuspend {
    pub fn new() -> (r: Self) {
        UsbSuspend
    }

    pub fn name(&self) -> (r: &'static str)
        ensures
            r@ == "USB Suspend/Resume"@,
    {
        "USB Suspend/Resume"
    }

    pub fn description(&self) -> (r: &'static str)
        ensures
            r@ == "Power cycles USB device through sysfs authorization"@,
    {
        "Power cycles USB device through sysfs authorization"
    }

    pub fn is_compatible_with(&self, reason: &FreezeReason) -> (r: bool)
        ensures
            r == true,
    {
        let _ = reason;
        true
    }

    pub fn risk_level(&self) -> (r: u8)
        ensures
            r == 3,
    {
        3
    }
}

/// IPMI power cycle of the whole host: the last resort.
pub struct IpmiPower;

impl IpmiPower {
    pub fn new() -> (r: Self) {
        IpmiPower
    }

    pub fn name(&self) -> (r: &'static str)
        ensures
            r@ == "IPMI Power Cycle"@,
    {
        "IPMI Power Cycle"
    }

    pub fn description(&self) -> (r: &'static str)
        ensures
            r@ == "Uses IPMI to power cycle the system (server environments)"@,
    {
        "Uses IPMI to power cycle the system (server environments)"
    }

    pub fn is_compatible_with(&self, reason: &FreezeReason) -> (r: bool)
        ensures
            r == true,
    {
        let _ = reason;
        true
    }

    pub fn estimated_duration(&self) -> (r: u64)
        ensures
            r == 120,
    {
        120
    }

    pub fn risk_level(&self) -> (r: u8)
        ensures
            r == 10,
    {
        10
    }
}

/// Vendor CLI workarounds for RAID controllers.
pub struct VendorSpecific;

impl VendorSpecific {
    pub fn new() -> (r: Self) {
        VendorSpecific
    }

    pub fn name(&self) -> (r: &'static str)
        ensures
            r@ == "Vendor-Specific Commands"@,
    {
        "Vendor-Specific Commands"
    }

    pub fn description(&self) -> (r: &'static str)
        ensures
            r@ == "Uses vendor-specific CLI tools to unfreeze drives on RAID controllers"@,
    {
        "Uses vendor-specific CLI tools to unfreeze drives on RAID controllers"
    }

    pub fn is_compatible_with(&self, reason: &FreezeReason) -> (r: bool)
        ensures
            r == (*reason == FreezeReason::RaidController || *reason
                == FreezeReason::ControllerPolicy || *reason == FreezeReason::Unknown),
    {
        match reason {
            FreezeReason::RaidController => true,
            FreezeReason::ControllerPolicy => true,
            FreezeReason::Unknown => true,
            _ => false,
        }
    }

    pub fn estimated_duration(&self) -> (r: u64)
        ensures
            r == 15,
    {
        15
    }

    pub fn risk_level(&self) -> (r: u8)
        ensures
            r == 6,
    {
        6
    }

    /// Controller vendor from sysfs vendor text and `lspci` output,
    /// lower-cased sysfs matching first, tool output second.
    pub fn detect_vendor(vendor_text: &Vec<u8>, lspci_text: &Vec<u8>) -> (r: ControllerVendor)
        ensures
            r == detect_vendor_spec(vendor_text@, lspci_text@),
    {
        let lower = crate::bytes::to_lower(vendor_text);
        proof {
            assert(lower@ =~= lower_seq(vendor_text@));
        }
        let dell: Vec<u8> = vec![0x64, 0x65, 0x6c, 0x6c];
        let perc_l: Vec<u8> = vec![0x70, 0x65, 0x72, 0x63];
        let hp: Vec<u8> = vec![0x68, 0x70];
        let smart: Vec<u8> = vec![0x73, 0x6d, 0x61, 0x72, 0x74];
        let lsi_l: Vec<u8> = vec![0x6c, 0x73, 0x69];
        let mega_l: Vec<u8> = vec![0x6d, 0x65, 0x67, 0x61];
        let adaptec_l: Vec<u8> = vec![0x61, 0x64, 0x61, 0x70, 0x74, 0x65, 0x63];
        let intel_l: Vec<u8> = vec![0x69, 0x6e, 0x74, 0x65, 0x6c];
        if crate::bytes::contains_sub(&lower, &dell) || crate::bytes::contains_sub(
            &lower,
            &perc_l,
        ) {
            return ControllerVendor::DellPerc;
        }
        if crate::bytes::contains_sub(&lower, &hp) || crate::bytes::contains_sub(&lower, &smart) {
            return ControllerVendor::HpSmartArray;
        }
        if crate::bytes::contains_sub(&lower, &lsi_l) || crate::bytes::contains_sub(
            &lower,
            &mega_l,
        ) {
            return ControllerVendor::LsiMegaRaid;
        }
        if crate::bytes::contains_sub(&lower, &adaptec_l) {
            return ControllerVendor::Adaptec;
        }
        if crate::bytes::contains_sub(&lower, &intel_l) {
            return ControllerVendor::IntelRst;
        }
        let perc: Vec<u8> = vec![0x50, 0x45, 0x52, 0x43];
        let smartarray: Vec<u8> = vec![
            0x53, 0x6d, 0x61, 0x72, 0x74, 0x41, 0x72, 0x72, 0x61, 0x79,
        ];
        let megaraid: Vec<u8> = vec![0x4d, 0x65, 0x67, 0x61, 0x52, 0x41, 0x49, 0x44];
        let lsi: Vec<u8> = vec![0x4c, 0x53, 0x49];
        let adaptec: Vec<u8> = vec![0x41, 0x64, 0x61, 0x70, 0x74, 0x65, 0x63];
        let intel: Vec<u8> = vec![0x49, 0x6e, 0x74, 0x65, 0x6c];
        let sata: Vec<u8> = vec![0x53, 0x41, 0x54, 0x41];
        if crate::bytes::contains_sub(lspci_text, &perc) {
            return ControllerVendor::DellPerc;
        }
        if crate::bytes::contains_sub(lspci_text, &smartarray) {
            return ControllerVendor::HpSmartArray;
        }
        if crate::bytes::contains_sub(lspci_text, &megaraid) || crate::bytes::contains_sub(
            lspci_text,
            &lsi,
        ) {
            return ControllerVendor::LsiMegaRaid;
        }
        if crate::bytes::contains_sub(lspci_text, &adaptec) {
            return ControllerVendor::Adaptec;
        }
        if crate::bytes::contains_sub(lspci_text, &intel) && crate::bytes::contains_sub(
            lspci_text,
            &sata,
        ) {
            return ControllerVendor::IntelRst;
        }
        ControllerVendor::Unknown
    }
}

/// RAID controller families the vendor workaround knows.
#[derive(Debug, Clone, Copy, PartialEq, Eq, Structural)]
pub enum ControllerVendor {
    DellPerc,
    HpSmartArray,
    LsiMegaRaid,
    Adaptec,
    IntelRst,
    Unknown,
}

/// The vendor classification over the lower-cased sysfs text and the raw
/// tool output.
pub open spec fn detect_vendor_spec(vendor_text: Seq<u8>, lspci_text: Seq<u8>) -> ControllerVendor {
    let lower = lower_seq(vendor_text);
    if crate::bytes::contains_seq(lower, seq![0x64u8, 0x65u8, 0x6cu8, 0x6cu8])
        || crate::bytes::contains_seq(lower, seq![0x70u8, 0x65u8, 0x72u8, 0x63u8]) {
        ControllerVendor::DellPerc
    } else if crate::bytes::contains_seq(lower, seq![0x68u8, 0x70u8])
        || crate::bytes::contains_seq(lower, seq![0x73u8, 0x6du8, 0x61u8, 0x72u8, 0x74u8]) {
        ControllerVendor::HpSmartArray
    } else if crate::bytes::contains_seq(lower, seq![0x6cu8, 0x73u8, 0x69u8])
        || crate::bytes::contains_seq(lower, seq![0x6du8, 0x65u8, 0x67u8, 0x61u8]) {
        ControllerVendor::LsiMegaRaid
    } else if crate::bytes::contains_seq(
        lower,
        seq![0x61u8, 0x64u8, 0x61u8, 0x70u8, 0x74u8, 0x65u8, 0x63u8],
    ) {
        ControllerVendor::Adaptec
    } else if crate::bytes::contains_seq(lower, seq![0x69u8, 0x6eu8, 0x74u8, 0x65u8, 0x6cu8]) {
        ControllerVendor::IntelRst
    } else if crate::bytes::contains_seq(lspci_text, seq![0x50u8, 0x45u8, 0x52u8, 0x43u8]) {
        ControllerVendor::DellPerc
    } else if crate::bytes::contains_seq(
        lspci_text,
        seq![0x53u8, 0x6du8, 0x61u8, 0x72u8, 0x74u8, 0x41u8, 0x72u8, 0x72u8, 0x61u8, 0x79u8],
    ) {
        ControllerVendor::HpSmartArray
    } else if crate::bytes::contains_seq(
        lspci_text,
        seq![0x4du8, 0x65u8, 0x67u8, 0x61u8, 0x52u8, 0x41u8, 0x49u8, 0x44u8],
    ) || crate::bytes::contains_seq(lspci_text, seq![0x4cu8, 0x53u8, 0x49u8]) {
        ControllerVendor::LsiMegaRaid
    } else if crate::bytes::contains_seq(
        lspci_text,
        seq![0x41u8, 0x64u8, 0x61u8, 0x70u8, 0x74u8, 0x65u8, 0x63u8],
    ) {
        ControllerVendor::Adaptec
    } else if crate::bytes::contains_seq(lspci_text, seq![0x49u8, 0x6eu8, 0x74u8, 0x65u8, 0x6cu8])
        && crate::bytes::contains_seq(lspci_text, seq![0x53u8, 0x41u8, 0x54u8, 0x41u8]) {
        ControllerVendor::IntelRst
    } else {
        ControllerVendor::Unknown
    }
}

/// What the selection engine needs to know of a registered strategy.
#[derive(Debug, Clone, Copy, PartialEq, Eq, Structural)]
pub struct StrategyDescriptor {
    pub risk_level: u8,
    pub compatible: bool,
    pub available: bool,
}

/// A strategy takes part in selection when it is both compatible with the
/// freeze reason and available on this host.
pub open spec fn eligible(s: StrategyDescriptor) -> bool {
    s.compatible && s.available
}

/// Outcome of a mitigation run: which strategies were attempted, in
/// order, and which one (if any) succeeded.
#[derive(Debug, Clone)]
pub struct UnfreezeResult {
    pub attempts: Vec<usize>,
    pub winner: Option<usize>,
}

/// The freeze-mitigation selection engine.
pub struct FreezeMitigation;

impl FreezeMitigation {
    /// Order the eligible strategies by ascending risk (ties by
    /// registration order): the attempt plan.
    pub fn plan_attempts(strategies: &Vec<StrategyDescriptor>) -> (r: Vec<usize>)
        requires
            forall|i: int| 0 <= i < strategies@.len() ==> 1 <= (#[trigger] strategies@[i]).risk_level <= 10,
        ensures
            forall|k: int| 0 <= k < r@.len() ==> (#[trigger] r@[k]) < strategies@.len(),
            forall|k: int| 0 <= k < r@.len() ==> eligible(strategies@[#[trigger] r@[k] as int]),
            forall|k1: int, k2: int| 0 <= k1 < k2 < r@.len()
                ==> strategies@[#[trigger] r@[k1] as int].risk_level
                <= strategies@[#[trigger] r@[k2] as int].risk_level,
            forall|i: int| 0 <= i < strategies@.len() && eligible(#[trigger] strategies@[i])
                ==> r@.contains(i as usize),
            forall|k1: int, k2: int| 0 <= k1 < k2 < r@.len()
                && strategies@[#[trigger] r@[k1] as int].risk_level
                == strategies@[#[trigger] r@[k2] as int].risk_level ==> r@[k1] < r@[k2],
            forall|k1: int, k2: int| 0 <= k1 < k2 < r@.len() ==> (#[trigger] r@[k1]) != (
            #[trigger] r@[k2]),
    {
        let n = strategies.len();
        let mut r: Vec<usize> = Vec::new();
        let mut risk: u8 = 1;
        while risk <= 10
            invariant
                n == strategies@.len(),
                1 <= risk <= 11,
                forall|i: int| 0 <= i < strategies@.len()
                    ==> 1 <= (#[trigger] strategies@[i]).risk_level <= 10,
                forall|k: int| 0 <= k < r@.len() ==> (#[trigger] r@[k]) < strategies@.len(),
                forall|k: int| 0 <= k < r@.len() ==> eligible(
                    strategies@[#[trigger] r@[k] as int],
                ),
                forall|k: int| 0 <= k < r@.len()
                    ==> strategies@[#[trigger] r@[k] as int].risk_level < risk,
                forall|k1: int, k2: int| 0 <= k1 < k2 < r@.len()
                    ==> strategies@[#[trigger] r@[k1] as int].risk_level
                    <= strategies@[#[trigger] r@[k2] as int].risk_level,
                forall|i: int| 0 <= i < strategies@.len() && eligible(#[trigger] strategies@[i])
                    && strategies@[i].risk_level < risk ==> r@.contains(i as usize),
                forall|k1: int, k2: int| 0 <= k1 < k2 < r@.len()
                    && strategies@[#[trigger] r@[k1] as int].risk_level
                    == strategies@[#[trigger] r@[k2] as int].risk_level ==> r@[k1] < r@[k2],
                forall|k1: int, k2: int| 0 <= k1 < k2 < r@.len() ==> (#[trigger] r@[k1]) != (
                #[trigger] r@[k2]),
            decreases 11 - risk,
        {
            let mut i: usize = 0;
            while i < n
                invariant
                    n == strategies@.len(),
                    1 <= risk <= 10,
                    0 <= i <= n,
                    forall|t: int| 0 <= t < strategies@.len()
                        ==> 1 <= (#[trigger] strategies@[t]).risk_level <= 10,
                    forall|k: int| 0 <= k < r@.len() ==> (#[trigger] r@[k]) < strategies@.len(),
                    forall|k: int| 0 <= k < r@.len() ==> eligible(
                        strategies@[#[trigger] r@[k] as int],
                    ),
                    forall|k: int| 0 <= k < r@.len()
                        ==> strategies@[#[trigger] r@[k] as int].risk_level <= risk,
                    forall|k: int| 0 <= k < r@.len()
                        ==> (strategies@[#[trigger] r@[k] as int].risk_level < risk || r@[k]
                        < i),
                    forall|k1: int, k2: int| 0 <= k1 < k2 < r@.len()
                        ==> strategies@[#[trigger] r@[k1] as int].risk_level
                        <= strategies@[#[trigger] r@[k2] as int].risk_level,
                    forall|t: int| 0 <= t < strategies@.len() && eligible(
                        #[trigger] strategies@[t],
                    ) && (strategies@[t].risk_level < risk || (strategies@[t].risk_level == risk
                        && t < i)) ==> r@.contains(t as usize),
                    forall|k1: int, k2: int| 0 <= k1 < k2 < r@.len()
                        && strategies@[#[trigger] r@[k1] as int].risk_level
                        == strategies@[#[trigger] r@[k2] as int].risk_level ==> r@[k1] < r@[k2],
                    forall|k1: int, k2: int| 0 <= k1 < k2 < r@.len() ==> (#[trigger] r@[k1]) != (
                    #[trigger] r@[k2]),
                decreases n - i,
            {
                let s = strategies[i];
                if s.compatible && s.available && s.risk_level == risk {
                    let ghost old_r = r@;
                    proof {
                        if old_r.contains(i) {
                            let k = choose|k: int| 0 <= k < old_r.len() && old_r[k] == i;
                            assert(strategies@[i as int].risk_level < risk || old_r[k] < i);
                            assert(false);
                        }
                    }
                    r.push(i);
                    proof {
                        assert forall|t: int| 0 <= t < strategies@.len() && eligible(
                            strategies@[t],
                        ) && (strategies@[t].risk_level < risk || (strategies@[t].risk_level
                            == risk && t < i + 1)) implies r@.contains(t as usize) by {
                            if t == i {
                                assert(r@[r@.len() - 1] == i);
                            } else {
                                assert(old_r.contains(t as usize));
                                let k = choose|k: int| 0 <= k < old_r.len() && old_r[k]
                                    == t as usize;
                                assert(r@[k] == t as usize);
                            }
                        }
                    }
                } else {
                    proof {
                        assert forall|t: int| 0 <= t < strategies@.len() && eligible(
                            strategies@[t],
                        ) && (strategies@[t].risk_level < risk || (strategies@[t].risk_level
                            == risk && t < i + 1)) implies r@.contains(t as usize) by {
                            if t == i {
                                assert(!(eligible(strategies@[t]) && strategies@[t].risk_level
                                    == risk));
                                assert(strategies@[t].risk_level < risk);
                            }
                        }
                    }
                }
                i += 1;
            }
            risk += 1;
        }
        proof {
            assert forall|i: int| 0 <= i < strategies@.len() && eligible(strategies@[i])
                implies r@.contains(i as usize) by {
                assert(strategies@[i].risk_level < risk);
            }
        }
        r
    }

    /// Walk the plan until a strategy succeeds: the attempts are exactly
    /// the failed prefix plus the winner, and every strategy after the
    /// winner is never invoked.
    pub fn run_mitigation(strategies: &Vec<StrategyDescriptor>, outcomes: &Vec<bool>) -> (r:
        UnfreezeResult)
        requires
            outcomes@.len() == strategies@.len(),
            forall|i: int| 0 <= i < strategies@.len() ==> 1 <= (#[trigger] strategies@[i]).risk_level <= 10,
        ensures
            forall|k: int| 0 <= k < r.attempts@.len() ==> (#[trigger] r.attempts@[k])
                < strategies@.len(),
            forall|k: int| 0 <= k < r.attempts@.len() ==> eligible(
                strategies@[#[trigger] r.attempts@[k] as int],
            ),
            forall|k1: int, k2: int| 0 <= k1 < k2 < r.attempts@.len()
                ==> strategies@[#[trigger] r.attempts@[k1] as int].risk_level
                <= strategies@[#[trigger] r.attempts@[k2] as int].risk_level,
            forall|k: int| 0 <= k < r.attempts@.len() - 1 ==> !outcomes@[(
            #[trigger] r.attempts@[k]) as int],
            r.winner matches Some(w) ==> r.attempts@.len() >= 1 && r.attempts@.last() == w
                && outcomes@[w as int] && eligible(strategies@[w as int]),
            r.winner matches Some(w) ==> forall|i: int|
                0 <= i < strategies@.len() && eligible(#[trigger] strategies@[i]) && (
                strategies@[i].risk_level < strategies@[w as int].risk_level || (
                strategies@[i].risk_level == strategies@[w as int].risk_level && i < w))
                    ==> r.attempts@.contains(i as usize),
            r.winner is None ==> (forall|k: int| 0 <= k < r.attempts@.len() ==> !outcomes@[(
            #[trigger] r.attempts@[k]) as int]),
            r.winner is None ==> (forall|i: int| 0 <= i < strategies@.len() && eligible(
                #[trigger] strategies@[i],
            ) ==> r.attempts@.contains(i as usize)),
    {
        let plan = Self::plan_attempts(strategies);
        let ns = strategies.len();
        let mut attempts: Vec<usize> = Vec::new();
        let mut winner: Option<usize> = None;
        let mut k: usize = 0;
        let m = plan.len();
        while k < m
            invariant
                m == plan@.len(),
                ns == strategies@.len(),
                0 <= k <= m,
                outcomes@.len() == strategies@.len(),
                winner is None,
                attempts@ == plan@.subrange(0, k as int),
                forall|t: int| 0 <= t < plan@.len() ==> (#[trigger] plan@[t])
                    < strategies@.len(),
                forall|t: int| 0 <= t < plan@.len() ==> eligible(
                    strategies@[#[trigger] plan@[t] as int],
                ),
                forall|t1: int, t2: int| 0 <= t1 < t2 < plan@.len()
                    ==> strategies@[#[trigger] plan@[t1] as int].risk_level
                    <= strategies@[#[trigger] plan@[t2] as int].risk_level,
                forall|i: int| 0 <= i < strategies@.len() && eligible(#[trigger] strategies@[i])
                    ==> plan@.contains(i as usize),
                forall|t1: int, t2: int| 0 <= t1 < t2 < plan@.len()
                    && strategies@[#[trigger] plan@[t1] as int].risk_level
                    == strategies@[#[trigger] plan@[t2] as int].risk_level ==> plan@[t1]
                    < plan@[t2],
                forall|t: int| 0 <= t < k ==> !outcomes@[(#[trigger] plan@[t]) as int],
            decreases m - k,
        {
            let idx = plan[k];
            attempts.push(idx);
            proof {
                assert(attempts@ =~= plan@.subrange(0, k as int + 1));
            }
            if outcomes[idx] {
                winner = Some(idx);
                proof {
                    assert(attempts@.last() == idx);
                    assert forall|i2: int|
                        0 <= i2 < strategies@.len() && eligible(#[trigger] strategies@[i2]) && (
                        strategies@[i2].risk_level < strategies@[idx as int].risk_level || (
                        strategies@[i2].risk_level == strategies@[idx as int].risk_level && i2
                            < idx)) implies attempts@.contains(i2 as usize) by {
                        assert(0 <= i2 < ns);
                        assert((i2 as usize) as int == i2);
                        assert(plan@.contains(i2 as usize));
                        let t = choose|t: int|
                            0 <= t < plan@.len() && plan@[t] == i2 as usize;
                        assert(plan@[t] as int == i2);
                        if t > k {
                            assert(strategies@[plan@[k as int] as int].risk_level
                                <= strategies@[plan@[t] as int].risk_level);
                            if strategies@[i2].risk_level == strategies@[
                                idx as int
                            ].risk_level {
                                assert(plan@[k as int] < plan@[t]);
                            }
                            assert(false);
                        }
                        assert(t < k || t == k);
                        if t == k {
                            assert(i2 as usize == idx);
                            assert(false);
                        }
                        assert(attempts@[t] == i2 as usize);
                    }
                }
                k += 1;
                return UnfreezeResult { attempts, winner };
            }
            k += 1;
        }
        proof {
            assert(attempts@ =~= plan@);
        }
        UnfreezeResult { attempts, winner }
    }
}

} // verus!
