//! The per-drive orchestration: algorithm resolution from capabilities,
//! the media-class dispatch onto hardware wipers, pattern generation, and
//! the session state machine whose every path ends in a terminal status
//! with any temporarily removed HPA restored.

use vstd::prelude::*;
use vstd::string::StrSliceExecFns;
use crate::bytes::contains_sub;
use crate::rng::fill_random;
use crate::{
    Algorithm, DriveCapabilities, DriveError, DriveInfo, DriveResult, DriveType,
    EncryptionStatus, WipeConfig, WipeStatus,
};

verus! {

/// A status in which a session may end.
pub open spec fn is_terminal(s: WipeStatus) -> bool {
    s == WipeStatus::Completed || s == WipeStatus::Failed || s == WipeStatus::Aborted
}

/// The method the drive-specific wiper dispatch picks.
#[derive(Debug, Clone, Copy, PartialEq, Eq, Structural)]
pub enum WiperMethod {
    HardwareSecureErase,
    CryptoErase,
    NvmeSanitize,
    ZoneResetAndFill,
    InstantSecureErase,
    HybridCacheThenPlatters,
    EmmcEraseSequence,
    UfsPurge,
    RaidScrubThenOverwrite,
    OverwriteDoD,
}

/// The effective algorithm when the operator asked for automatic
/// selection: crypto-erase first, then NVMe sanitize, then hardware
/// secure-erase, then the DoD overwrite.
pub open spec fn resolve_algorithm_spec(config: WipeConfig, info: DriveInfo) -> Algorithm {
    if config.algorithm == Algorithm::SecureErase {
        if info.capabilities.crypto_erase && config.sed_crypto_erase {
            Algorithm::CryptoErase
        } else if info.drive_type == DriveType::NVMe && info.capabilities.sanitize_supported {
            Algorithm::Sanitize
        } else if info.capabilities.secure_erase {
            Algorithm::SecureErase
        } else {
            Algorithm::DoD5220
        }
    } else {
        config.algorithm
    }
}

/// The drive-specific dispatch: which wiper a media class gets.
pub open spec fn wiper_method_spec(info: DriveInfo, force: bool) -> Result<
    WiperMethod,
    DriveType,
> {
    match info.drive_type {
        DriveType::SMR => Ok(WiperMethod::ZoneResetAndFill),
        DriveType::Optane => Ok(WiperMethod::InstantSecureErase),
        DriveType::HybridSSHD => Ok(WiperMethod::HybridCacheThenPlatters),
        DriveType::EMMC => Ok(WiperMethod::EmmcEraseSequence),
        DriveType::UFS => Ok(WiperMethod::UfsPurge),
        DriveType::NVMe => Ok(WiperMethod::NvmeSanitize),
        DriveType::SSD => if info.capabilities.crypto_erase {
            Ok(WiperMethod::CryptoErase)
        } else if info.capabilities.secure_erase {
            Ok(WiperMethod::HardwareSecureErase)
        } else {
            Ok(WiperMethod::OverwriteDoD)
        },
        DriveType::HDD => if info.capabilities.enhanced_erase {
            Ok(WiperMethod::HardwareSecureErase)
        } else {
            Ok(WiperMethod::OverwriteDoD)
        },
        DriveType::RAID => if force {
            Ok(WiperMethod::RaidScrubThenOverwrite)
        } else {
            Err(DriveType::RAID)
        },
        _ => Err(info.drive_type),
    }
}

/// Mutable record of one drive's run: phase bookkeeping plus the hidden
/// area contract. The temporary HPA removal is noted once; every way of
/// leaving the session hands back the restore instruction exactly once.
pub struct DriveSession {
    pub status: WipeStatus,
    pub hpa_original: Option<u64>,
    pub hpa_restored: bool,
    pub restore_count: u32,
}

impl DriveSession {
    /// A freshly opened session.
    pub fn new() -> (r: Self)
        ensures
            r.status == WipeStatus::InProgress,
            r.hpa_original is None,
            r.hpa_restored == false,
            r.restore_count == 0,
    {
        DriveSession {
            status: WipeStatus::InProgress,
            hpa_original: None,
            hpa_restored: false,
            restore_count: 0,
        }
    }

    /// Record that the HPA was temporarily removed and must be restored
    /// to `original_sectors` before the session closes.
    pub fn note_hpa_removed(&mut self, original_sectors: u64)
        requires
            old(self).status == WipeStatus::InProgress,
            old(self).hpa_original is None,
        ensures
            final(self).status == WipeStatus::InProgress,
            final(self).hpa_original == Some(original_sectors),
            final(self).hpa_restored == false,
            final(self).restore_count == old(self).restore_count,
    {
        self.hpa_original = Some(original_sectors);
        self.hpa_restored = false;
    }

    /// Close the session with the given terminal status. Returns the
    /// sector count to hand to the volatile SET-MAX restore, exactly once
    /// and only when a temporary removal is still outstanding.
    fn close_with(&mut self, status: WipeStatus) -> (restore: Option<u64>)
        requires
            old(self).status == WipeStatus::InProgress,
            old(self).restore_count == 0,
            old(self).hpa_restored == false,
            is_terminal(status),
        ensures
            final(self).status == status,
            is_terminal(final(self).status),
            final(self).hpa_original == old(self).hpa_original,
            old(self).hpa_original matches Some(s) ==> restore == Some(s) && final(self).hpa_restored && final(self).restore_count == 1,
            old(self).hpa_original is None ==> restore is None && final(self).restore_count
                == 0,
    {
        self.status = status;
        match self.hpa_original {
            Some(sectors) => {
                self.hpa_restored = true;
                self.restore_count = self.restore_count + 1;
                Some(sectors)
            },
            None => None,
        }
    }

    /// Successful completion; restores an outstanding HPA removal.
    pub fn complete(&mut self) -> (restore: Option<u64>)
        requires
            old(self).status == WipeStatus::InProgress,
            old(self).restore_count == 0,
            old(self).hpa_restored == false,
        ensures
            final(self).status == WipeStatus::Completed,
            is_terminal(final(self).status),
            old(self).hpa_original matches Some(s) ==> restore == Some(s) && final(self).hpa_restored && final(self).restore_count == 1,
            old(self).hpa_original is None ==> restore is None,
    {
        self.close_with(WipeStatus::Completed)
    }

    /// Failure; restores an outstanding HPA removal all the same.
    pub fn fail(&mut self) -> (restore: Option<u64>)
        requires
            old(self).status == WipeStatus::InProgress,
            old(self).restore_count == 0,
            old(self).hpa_restored == false,
        ensures
            final(self).status == WipeStatus::Failed,
            is_terminal(final(self).status),
            old(self).hpa_original matches Some(s) ==> restore == Some(s) && final(self).hpa_restored && final(self).restore_count == 1,
            old(self).hpa_original is None ==> restore is None,
    {
        self.close_with(WipeStatus::Failed)
    }

    /// Cooperative cancellation; the status becomes `Aborted` and an
    /// outstanding HPA removal is restored.
    pub fn cancel(&mut self) -> (restore: Option<u64>)
        requires
            old(self).status == WipeStatus::InProgress,
            old(self).restore_count == 0,
            old(self).hpa_restored == false,
        ensures
            final(self).status == WipeStatus::Aborted,
            is_terminal(final(self).status),
            old(self).hpa_original matches Some(s) ==> restore == Some(s) && final(self).hpa_restored && final(self).restore_count == 1,
            old(self).hpa_original is None ==> restore is None,
    {
        self.close_with(WipeStatus::Aborted)
    }
}

/// Routes a wipe to the implementation fitting the detected media class.
pub struct WipeOrchestrator {
    pub device_path: String,
    pub config: WipeConfig,
    pub drive_info: DriveInfo,
}

impl WipeOrchestrator {
    /// New orchestrator over a basic path-derived drive snapshot.
    pub fn new(device_path: String, config: WipeConfig) -> (r: DriveResult<Self>)
        ensures
            r is Ok,
            r matches Ok(o) ==> o.device_path@ == device_path@ && o.config == config
                && o.drive_info.drive_type == basic_drive_type_spec(device_path@),
    {
        let drive_info = match Self::create_basic_drive_info(device_path.as_str()) {
            Ok(i) => i,
            Err(e) => {
                return Err(e);
            },
        };
        Ok(WipeOrchestrator { device_path, config, drive_info })
    }

    /// A minimal snapshot inferred from the device path alone: an `nvme`
    /// name is NVMe, an `mmcblk` name is eMMC, anything else is treated
    /// as a spinning drive; the size defaults to 100 GiB.
    pub fn create_basic_drive_info(device_path: &str) -> (r: DriveResult<DriveInfo>)
        ensures
            r matches Ok(i) ==> ({
                &&& i.device_path@ == device_path@
                &&& i.drive_type == basic_drive_type_spec(device_path@)
                &&& i.size == 107374182400u64
                &&& i.encryption_status == EncryptionStatus::NoEncryption
                &&& i.capabilities == DriveCapabilities::none()
                &&& i.health_status is None
                &&& i.temperature_celsius is None
            }),
            r is Ok,
    {
        let bytes = device_path.as_bytes_vec();
        let nvme: Vec<u8> = vec![0x6e, 0x76, 0x6d, 0x65];
        let mmcblk: Vec<u8> = vec![0x6d, 0x6d, 0x63, 0x62, 0x6c, 0x6b];
        let drive_type: DriveType = if contains_sub(&bytes, &nvme) {
            DriveType::NVMe
        } else if contains_sub(&bytes, &mmcblk) {
            DriveType::EMMC
        } else {
            DriveType::HDD
        };
        proof {
            assert(nvme@ =~= seq![0x6eu8, 0x76u8, 0x6du8, 0x65u8]);
            assert(mmcblk@ =~= seq![0x6du8, 0x6du8, 0x63u8, 0x62u8, 0x6cu8, 0x6bu8]);
        }
        Ok(
            DriveInfo {
                device_path: device_path.to_owned(),
                model: "Unknown".to_owned(),
                serial: "Unknown".to_owned(),
                size: 107374182400,
                drive_type,
                encryption_status: EncryptionStatus::NoEncryption,
                capabilities: DriveCapabilities {
                    secure_erase: false,
                    enhanced_erase: false,
                    crypto_erase: false,
                    trim_support: false,
                    sanitize_supported: false,
                    hpa_enabled: false,
                    dco_enabled: false,
                    is_frozen: false,
                },
                health_status: None,
                temperature_celsius: None,
            },
        )
    }

    /// One buffer of wipe material for the configured algorithm: zeros
    /// for `Zero`, cryptographically random bytes for everything else.
    pub fn generate_pattern(&self, size: usize) -> (r: DriveResult<Vec<u8>>)
        ensures
            r is Ok,
            r matches Ok(v) ==> v@.len() == size,
            self.config.algorithm == Algorithm::Zero ==> (r matches Ok(v) && forall|i: int|
                0 <= i < v@.len() ==> v@[i] == 0),
    {
        let mut data: Vec<u8> = Vec::new();
        let mut i: usize = 0;
        while i < size
            invariant
                data@.len() == i,
                0 <= i <= size,
                forall|k: int| 0 <= k < i ==> data@[k] == 0,
            decreases size - i,
        {
            data.push(0);
            i += 1;
        }
        match self.config.algorithm {
            Algorithm::Zero => Ok(data),
            _ => {
                fill_random(&mut data);
                Ok(data)
            },
        }
    }

    /// The effective algorithm after automatic selection.
    pub fn resolve_algorithm(config: &WipeConfig, info: &DriveInfo) -> (r: Algorithm)
        ensures
            r == resolve_algorithm_spec(*config, *info),
    {
        if let Algorithm::SecureErase = config.algorithm {
            if info.capabilities.crypto_erase && config.sed_crypto_erase {
                Algorithm::CryptoErase
            } else if let DriveType::NVMe = info.drive_type {
                if info.capabilities.sanitize_supported {
                    Algorithm::Sanitize
                } else if info.capabilities.secure_erase {
                    Algorithm::SecureErase
                } else {
                    Algorithm::DoD5220
                }
            } else if info.capabilities.secure_erase {
                Algorithm::SecureErase
            } else {
                Algorithm::DoD5220
            }
        } else {
            config.algorithm
        }
    }

    /// The drive-specific wiper for this media class; wiping a RAID
    /// member without `force` is refused.
    pub fn wiper_method(info: &DriveInfo, force: bool) -> (r: DriveResult<WiperMethod>)
        ensures
            r matches Ok(m) ==> wiper_method_spec(*info, force) == Ok::<WiperMethod, DriveType>(
                m,
            ),
            r is Err <==> wiper_method_spec(*info, force) is Err,
            r matches Err(e) ==> e is Unsupported,
    {
        match info.drive_type {
            DriveType::SMR => Ok(WiperMethod::ZoneResetAndFill),
            DriveType::Optane => Ok(WiperMethod::InstantSecureErase),
            DriveType::HybridSSHD => Ok(WiperMethod::HybridCacheThenPlatters),
            DriveType::EMMC => Ok(WiperMethod::EmmcEraseSequence),
            DriveType::UFS => Ok(WiperMethod::UfsPurge),
            DriveType::NVMe => Ok(WiperMethod::NvmeSanitize),
            DriveType::SSD => {
                if info.capabilities.crypto_erase {
                    Ok(WiperMethod::CryptoErase)
                } else if info.capabilities.secure_erase {
                    Ok(WiperMethod::HardwareSecureErase)
                } else {
                    Ok(WiperMethod::OverwriteDoD)
                }
            },
            DriveType::HDD => {
                if info.capabilities.enhanced_erase {
                    Ok(WiperMethod::HardwareSecureErase)
                } else {
                    Ok(WiperMethod::OverwriteDoD)
                }
            },
            DriveType::RAID => {
                if force {
                    Ok(WiperMethod::RaidScrubThenOverwrite)
                } else {
                    Err(
                        DriveError::Unsupported(
                            "Wiping RAID members requires the force flag".to_owned(),
                        ),
                    )
                }
            },
            _ => Err(DriveError::Unsupported("unrecognized drive type".to_owned())),
        }
    }
}

/// Media class inferred from the device path alone.
pub open spec fn basic_drive_type_spec(path: Seq<char>) -> DriveType {
    let bytes = vstd::utf8::encode_utf8(path);
    if crate::bytes::contains_seq(bytes, seq![0x6eu8, 0x76u8, 0x6du8, 0x65u8]) {
        DriveType::NVMe
    } else if crate::bytes::contains_seq(
        bytes,
        seq![0x6du8, 0x6du8, 0x63u8, 0x62u8, 0x6cu8, 0x6bu8],
    ) {
        DriveType::EMMC
    } else {
        DriveType::HDD
    }
}

} // verus!
