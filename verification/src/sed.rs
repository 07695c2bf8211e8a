//! Self-encrypting-drive decisions: whether a cryptographic erase may
//! proceed, and what has to happen first. The vendor commands run
//! outside; the refusal cascade below is verified.

use vstd::prelude::*;
use crate::{DriveError, DriveResult};

verus! {

/// The SED standard a drive implements.
#[derive(Debug, Clone, Copy, PartialEq, Eq, Structural)]
pub enum SEDType {
    NoSed,
    Opal,
    Enterprise,
    Unknown,
}

/// The SED posture read from the drive.
#[derive(Debug, Clone, Copy, PartialEq, Eq, Structural)]
pub struct SEDInfo {
    pub sed_type: SEDType,
    pub locked: bool,
    pub enabled: bool,
    pub frozen: bool,
    pub supports_crypto_erase: bool,
}

/// What a permitted cryptographic erase must do first.
#[derive(Debug, Clone, Copy, PartialEq, Eq, Structural)]
pub struct SedCryptoPlan {
    pub unlock_first: bool,
}

/// Decides and plans SED operations.
pub struct SEDManager;

impl SEDManager {
    /// The crypto-erase refusal cascade: no SED capability and no
    /// crypto-erase support are unsupported; a locked drive without a
    /// password is a usage error; otherwise the erase may proceed,
    /// unlocking first exactly when the drive is locked.
    pub fn crypto_erase_plan(info: &SEDInfo, password_supplied: bool) -> (r: DriveResult<
        SedCryptoPlan,
    >)
        ensures
            r is Ok <==> (info.sed_type != SEDType::NoSed && info.supports_crypto_erase && (
            !info.locked || password_supplied)),
            r matches Ok(p) ==> p.unlock_first == info.locked,
            (info.sed_type == SEDType::NoSed || (info.sed_type != SEDType::NoSed
                && !info.supports_crypto_erase)) ==> (r matches Err(e) && e is Unsupported),
            (info.sed_type != SEDType::NoSed && info.supports_crypto_erase && info.locked
                && !password_supplied) ==> (r matches Err(e) && e is Usage),
    {
        if let SEDType::NoSed = info.sed_type {
            return Err(
                DriveError::Unsupported("No SED capabilities detected on this drive".to_owned()),
            );
        }
        if !info.supports_crypto_erase {
            return Err(
                DriveError::Unsupported(
                    "This drive does not support cryptographic erase".to_owned(),
                ),
            );
        }
        if info.locked && !password_supplied {
            return Err(
                DriveError::Usage("Drive is locked; a password must be provided".to_owned()),
            );
        }
        Ok(SedCryptoPlan { unlock_first: info.locked })
    }

    /// The unlock decision: nothing to do when the drive is not locked.
    pub fn unlock_needed(info: &SEDInfo) -> (r: bool)
        ensures
            r == info.locked,
    {
        info.locked
    }
}

} // verus!
