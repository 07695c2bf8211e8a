//! Secure block-device erasure: multi-pass overwrite schedules, drive-aware
//! orchestration, hidden-area handling, freeze mitigation, and a statistical
//! verification engine producing an integer confidence score.
//!
//! All statistics are computed in exact integer fixed point: Shannon entropy
//! in milli-bits (8000 = 8 bits per byte), chi-square in milli-units, and
//! confidence in tenths of a percent (1000 = 100.0%).

pub mod algorithms;
pub mod bytes;
pub mod config;
pub mod checkpoint;
pub mod detection;
pub mod freeze;
pub mod hidden;
pub mod io;
pub mod orchestrator;
pub mod patterns;
pub mod randomness;
pub mod report;
pub mod recovery;
pub mod rng;
pub mod sed;
pub mod selftest;
pub mod smart;
pub mod stats;
pub mod ui;
pub mod verification;

use vstd::prelude::*;

verus! {

/// Erasure algorithm requested by the operator.
#[derive(Debug, Clone, Copy, PartialEq, Eq, Structural)]
pub enum Algorithm {
    DoD5220,
    Gutmann,
    Random,
    Zero,
    SecureErase,
    CryptoErase,
    Sanitize,
    TrimOnly,
}

/// Media class of a detected block device.
#[derive(Debug, Clone, Copy, PartialEq, Eq, Structural)]
pub enum DriveType {
    HDD,
    SSD,
    NVMe,
    SMR,
    Optane,
    HybridSSHD,
    EMMC,
    UFS,
    RAID,
    USB,
    Unknown,
}

/// Encryption posture reported for a drive.
#[derive(Debug, Clone, Copy, PartialEq, Eq, Structural)]
pub enum EncryptionStatus {
    NoEncryption,
    OPAL,
    BitLocker,
    LUKS,
    Unknown,
}

/// Overall health classification from SMART data.
#[derive(Debug, Clone, Copy, PartialEq, Eq, Structural)]
pub enum HealthStatus {
    Good,
    Warning,
    Critical,
    Failed,
    Unknown,
}

/// How hidden areas (HPA/DCO) are treated during a wipe.
#[derive(Debug, Clone, Copy, PartialEq, Eq, Structural)]
pub enum HPADCOHandling {
    Ignore,
    Detect,
    TemporaryRemove,
    PermanentRemove,
}

/// Terminal and intermediate status of one drive inside a session.
#[derive(Debug, Clone, Copy, PartialEq, Eq, Structural)]
pub enum WipeStatus {
    Pending,
    InProgress,
    Completed,
    Failed,
    Aborted,
}

/// Capability flags read from identify pages.
#[derive(Debug, Clone, Copy, PartialEq, Eq, Structural)]
pub struct DriveCapabilities {
    pub secure_erase: bool,
    pub enhanced_erase: bool,
    pub crypto_erase: bool,
    pub trim_support: bool,
    pub sanitize_supported: bool,
    pub hpa_enabled: bool,
    pub dco_enabled: bool,
    pub is_frozen: bool,
}

impl Default for DriveCapabilities {
    fn default() -> (r: Self)
        ensures
            r == DriveCapabilities::none(),
    {
        DriveCapabilities {
            secure_erase: false,
            enhanced_erase: false,
            crypto_erase: false,
            trim_support: false,
            sanitize_supported: false,
            hpa_enabled: false,
            dco_enabled: false,
            is_frozen: false,
        }
    }
}

impl DriveCapabilities {
    /// The empty capability set: nothing advertised.
    pub open spec fn none() -> DriveCapabilities {
        DriveCapabilities {
            secure_erase: false,
            enhanced_erase: false,
            crypto_erase: false,
            trim_support: false,
            sanitize_supported: false,
            hpa_enabled: false,
            dco_enabled: false,
            is_frozen: false,
        }
    }
}

/// Immutable snapshot of a detected drive.
#[derive(Debug, Clone)]
pub struct DriveInfo {
    pub device_path: String,
    pub model: String,
    pub serial: String,
    pub size: u64,
    pub drive_type: DriveType,
    pub encryption_status: EncryptionStatus,
    pub capabilities: DriveCapabilities,
    pub health_status: Option<HealthStatus>,
    pub temperature_celsius: Option<u32>,
}

/// Configuration handed to the orchestrator.
#[derive(Debug, Clone)]
pub struct WipeConfig {
    pub algorithm: Algorithm,
    pub verify: bool,
    pub multiple_passes: Option<u32>,
    pub preserve_partition_table: bool,
    pub unlock_encrypted: bool,
    pub handle_hpa_dco: HPADCOHandling,
    pub use_trim_after: bool,
    pub temperature_monitoring: bool,
    pub max_temperature_celsius: Option<u32>,
    pub freeze_mitigation: bool,
    pub sed_crypto_erase: bool,
}

impl Default for WipeConfig {
    fn default() -> (r: Self)
        ensures
            r.algorithm == Algorithm::SecureErase,
            r.verify == true,
            r.handle_hpa_dco == HPADCOHandling::Detect,
            r.use_trim_after == true,
            r.temperature_monitoring == true,
            r.freeze_mitigation == true,
            r.sed_crypto_erase == true,
            r.multiple_passes is None,
            r.preserve_partition_table == false,
            r.unlock_encrypted == false,
            r.max_temperature_celsius == Some(65u32),
    {
        WipeConfig {
            algorithm: Algorithm::SecureErase,
            verify: true,
            multiple_passes: None,
            preserve_partition_table: false,
            unlock_encrypted: false,
            handle_hpa_dco: HPADCOHandling::Detect,
            use_trim_after: true,
            temperature_monitoring: true,
            max_temperature_celsius: Some(65),
            freeze_mitigation: true,
            sed_crypto_erase: true,
        }
    }
}

/// Stable error taxonomy of the library.
#[derive(Debug, Clone)]
pub enum DriveError {
    Usage(String),
    Permission,
    DeviceNotFound(String),
    DeviceMounted,
    DeviceBusy,
    Frozen,
    Unsupported(String),
    HardwareCommandFailed(String),
    IoError(String),
    ShortWrite { expected: u64, actual: u64 },
    TemperatureExceeded(String),
    VerificationBelowThreshold { got_tenths: u32, required_tenths: u32 },
    SMARTReadFailed(String),
    Cancelled,
    Internal,
}

pub type DriveResult<T> = Result<T, DriveError>;

} // verus!
