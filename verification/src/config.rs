//! Operator-input parsing: algorithm and hidden-area-mode names to their
//! enumerations, display truncation, and the temperature-wait decision.

use vstd::prelude::*;
use vstd::string::{StrSliceExecFns, StringExecFns};
use crate::bytes::{eq_vec, lower_seq, to_lower};
use crate::{Algorithm, DriveError, DriveResult, HPADCOHandling, WipeConfig};

verus! {

/// The algorithm named by a lower-cased token, if any; `auto` maps to
/// the capability-driven automatic selection.
pub open spec fn algorithm_name_spec(low: Seq<u8>) -> Option<Algorithm> {
    if low == vstd::utf8::encode_utf8("dod"@) {
        Some(Algorithm::DoD5220)
    } else if low == vstd::utf8::encode_utf8("gutmann"@) {
        Some(Algorithm::Gutmann)
    } else if low == vstd::utf8::encode_utf8("random"@) {
        Some(Algorithm::Random)
    } else if low == vstd::utf8::encode_utf8("zero"@) {
        Some(Algorithm::Zero)
    } else if low == vstd::utf8::encode_utf8("secure"@) {
        Some(Algorithm::SecureErase)
    } else if low == vstd::utf8::encode_utf8("crypto"@) {
        Some(Algorithm::CryptoErase)
    } else if low == vstd::utf8::encode_utf8("sanitize"@) {
        Some(Algorithm::Sanitize)
    } else if low == vstd::utf8::encode_utf8("trim"@) {
        Some(Algorithm::TrimOnly)
    } else if low == vstd::utf8::encode_utf8("auto"@) {
        Some(Algorithm::SecureErase)
    } else {
        None
    }
}

/// The hidden-area mode named by a token; unrecognized names fall back
/// to detection only.
pub open spec fn hpa_dco_name_spec(s: Seq<u8>) -> HPADCOHandling {
    if s == vstd::utf8::encode_utf8("ignore"@) {
        HPADCOHandling::Ignore
    } else if s == vstd::utf8::encode_utf8("remove-temp"@) {
        HPADCOHandling::TemporaryRemove
    } else if s == vstd::utf8::encode_utf8("remove-perm"@) {
        HPADCOHandling::PermanentRemove
    } else {
        HPADCOHandling::Detect
    }
}

/// Build the orchestrator configuration from operator input; an unknown
/// algorithm name is a usage error.
pub fn build_wipe_config(
    algorithm: &str,
    verify: bool,
    hpa_dco: &str,
    use_trim: bool,
    temp_monitoring: bool,
    max_temp: u32,
    freeze_mitigation: bool,
) -> (r: DriveResult<WipeConfig>)
    ensures
        r is Ok <==> algorithm_name_spec(lower_seq(vstd::utf8::encode_utf8(algorithm@))) is Some,
        r matches Ok(c) ==> ({
            &&& Some(c.algorithm) == algorithm_name_spec(
                lower_seq(vstd::utf8::encode_utf8(algorithm@)),
            )
            &&& c.verify == verify
            &&& c.handle_hpa_dco == hpa_dco_name_spec(vstd::utf8::encode_utf8(hpa_dco@))
            &&& c.use_trim_after == use_trim
            &&& c.temperature_monitoring == temp_monitoring
            &&& c.max_temperature_celsius == Some(max_temp)
            &&& c.freeze_mitigation == freeze_mitigation
            &&& c.sed_crypto_erase == true
            &&& c.multiple_passes is None
            &&& c.preserve_partition_table == false
            &&& c.unlock_encrypted == false
        }),
{
    let low = to_lower(&algorithm.as_bytes_vec());
    proof {
        assert(low@ =~= lower_seq(vstd::utf8::encode_utf8(algorithm@)));
    }
    let alg: Algorithm = if eq_lit(&low, "dod") {
        Algorithm::DoD5220
    } else if eq_lit(&low, "gutmann") {
        Algorithm::Gutmann
    } else if eq_lit(&low, "random") {
        Algorithm::Random
    } else if eq_lit(&low, "zero") {
        Algorithm::Zero
    } else if eq_lit(&low, "secure") {
        Algorithm::SecureErase
    } else if eq_lit(&low, "crypto") {
        Algorithm::CryptoErase
    } else if eq_lit(&low, "sanitize") {
        Algorithm::Sanitize
    } else if eq_lit(&low, "trim") {
        Algorithm::TrimOnly
    } else if eq_lit(&low, "auto") {
        Algorithm::SecureErase
    } else {
        return Err(DriveError::Usage("Unknown algorithm".to_owned()));
    };
    let hd_bytes = hpa_dco.as_bytes_vec();
    let handling: HPADCOHandling = if eq_lit(&hd_bytes, "ignore") {
        HPADCOHandling::Ignore
    } else if eq_lit(&hd_bytes, "remove-temp") {
        HPADCOHandling::TemporaryRemove
    } else if eq_lit(&hd_bytes, "remove-perm") {
        HPADCOHandling::PermanentRemove
    } else {
        HPADCOHandling::Detect
    };
    Ok(
        WipeConfig {
            algorithm: alg,
            verify,
            multiple_passes: None,
            preserve_partition_table: false,
            unlock_encrypted: false,
            handle_hpa_dco: handling,
            use_trim_after: use_trim,
            temperature_monitoring: temp_monitoring,
            max_temperature_celsius: Some(max_temp),
            freeze_mitigation,
            sed_crypto_erase: true,
        },
    )
}

/// Byte-wise equality against an ASCII literal.
fn eq_lit(v: &Vec<u8>, lit: &str) -> (r: bool)
    ensures
        r == (v@ == vstd::utf8::encode_utf8(lit@)),
{
    let l = lit.as_bytes_vec();
    let e = eq_vec(v, &l);
    proof {
        if v@ =~= l@ {
            assert(v@ == l@);
        }
    }
    e
}

/// Truncate an ASCII string for display, marking the cut with an
/// ellipsis; the result never exceeds `max_len` characters.
pub fn truncate_string(s: &str, max_len: usize) -> (r: String)
    requires
        max_len >= 3,
        vstd::string::is_ascii(s),
    ensures
        s@.len() <= max_len ==> r@ == s@,
        r@.len() <= max_len,
{
    let n = s.unicode_len();
    if n <= max_len {
        s.to_owned()
    } else {
        let head = s.substring_ascii(0, max_len - 3);
        let mut out: String = head.to_owned();
        out.append("...");
        proof {
            reveal_strlit("...");
        }
        out
    }
}

/// What the cooling loop does next: proceed once the drive is at or
/// below the warning threshold, give up after the deadline, else keep
/// polling.
#[derive(Debug, Clone, Copy, PartialEq, Eq, Structural)]
pub enum TemperatureWait {
    Safe,
    KeepWaiting,
    TimedOut,
}

/// One decision of the cooling wait loop.
pub fn wait_for_safe_temperature_decision(
    current_celsius: u32,
    warning_threshold: u32,
    elapsed_seconds: u64,
    max_wait_seconds: u64,
) -> (r: TemperatureWait)
    ensures
        current_celsius <= warning_threshold ==> r == TemperatureWait::Safe,
        (current_celsius > warning_threshold && elapsed_seconds > max_wait_seconds) ==> r
            == TemperatureWait::TimedOut,
        (current_celsius > warning_threshold && elapsed_seconds <= max_wait_seconds) ==> r
            == TemperatureWait::KeepWaiting,
{
    if current_celsius <= warning_threshold {
        TemperatureWait::Safe
    } else if elapsed_seconds > max_wait_seconds {
        TemperatureWait::TimedOut
    } else {
        TemperatureWait::KeepWaiting
    }
}

} // verus!
