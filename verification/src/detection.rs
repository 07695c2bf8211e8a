//! Drive detection logic over tool output: field extraction from
//! identity text, media-class inference, device filtering, and the
//! capability checks of the hardware erase paths.

use vstd::prelude::*;
use vstd::string::StrSliceExecFns;
use crate::bytes::{
    contains_seq, contains_sub, find_byte_from, find_from, lemma_find_from, lines_spec,
    pieces_view, subvec, trim_spaces, trim_spec,
};
use crate::{DriveError, DriveResult, DriveType, EncryptionStatus};

verus! {

/// Enumerates and classifies block devices; the device-tree walk runs
/// outside, the classification below is verified.
pub struct DriveDetector;

/// Device names that never name wipable media: loopbacks, RAM disks and
/// device-mapper nodes.
pub open spec fn skip_device_spec(name: Seq<u8>) -> bool {
    ||| starts_with(name, seq![0x6cu8, 0x6fu8, 0x6fu8, 0x70u8])
    ||| starts_with(name, seq![0x72u8, 0x61u8, 0x6du8])
    ||| starts_with(name, seq![0x64u8, 0x6du8, 0x2du8])
}

/// `s` begins with `prefix`.
pub open spec fn starts_with(s: Seq<u8>, prefix: Seq<u8>) -> bool {
    prefix.len() <= s.len() && s.subrange(0, prefix.len() as int) == prefix
}

/// The first line at or after index `k` that mentions the field: the
/// text between its first and second colons (to the end of the line when
/// there is no second colon), trimmed; nothing when the matching line
/// has no colon at all, or when no line mentions the field.
pub open spec fn field_scan(lines: Seq<Seq<u8>>, k: int, field: Seq<u8>) -> Option<Seq<u8>>
    decreases lines.len() - k,
        when 0 <= k
{
    if k >= lines.len() {
        None
    } else if contains_seq(lines[k], field) {
        let c1 = find_from(lines[k], 0x3a, 0);
        if c1 >= lines[k].len() {
            None
        } else {
            let c2 = find_from(lines[k], 0x3a, c1 + 1);
            Some(trim_spec(lines[k].subrange(c1 + 1, c2)))
        }
    } else {
        field_scan(lines, k + 1, field)
    }
}

/// What [`DriveDetector::extract_field`] returns.
pub open spec fn extract_field_spec(output: Seq<u8>, field: Seq<u8>) -> Option<Seq<u8>> {
    field_scan(lines_spec(output), 0, field)
}

/// Media class from the device path and the identity text: `nvme` names
/// are NVMe; a rotation-rate line distinguishes SSDs (the solid-state
/// marker or a rate of 0 rpm) from spinning HDDs; otherwise the class is
/// unknown.
pub open spec fn drive_type_spec(path: Seq<u8>, identity: Seq<u8>) -> DriveType {
    if contains_seq(path, seq![0x6eu8, 0x76u8, 0x6du8, 0x65u8]) {
        DriveType::NVMe
    } else if contains_seq(
        identity,
        vstd::utf8::encode_utf8("Rotation Rate:"@),
    ) {
        if contains_seq(identity, vstd::utf8::encode_utf8("Solid State Device"@))
            || contains_seq(identity, vstd::utf8::encode_utf8(" 0 rpm"@)) {
            DriveType::SSD
        } else {
            DriveType::HDD
        }
    } else {
        DriveType::Unknown
    }
}

impl DriveDetector {
    /// Whether a device-tree entry is skipped during enumeration.
    pub fn should_skip_device(name: &Vec<u8>) -> (r: bool)
        ensures
            r == skip_device_spec(name@),
    {
        let loopp: Vec<u8> = vec![0x6c, 0x6f, 0x6f, 0x70];
        let ram: Vec<u8> = vec![0x72, 0x61, 0x6d];
        let dm: Vec<u8> = vec![0x64, 0x6d, 0x2d];
        proof {
            assert(loopp@ =~= seq![0x6cu8, 0x6fu8, 0x6fu8, 0x70u8]);
            assert(ram@ =~= seq![0x72u8, 0x61u8, 0x6du8]);
            assert(dm@ =~= seq![0x64u8, 0x6du8, 0x2du8]);
        }
        starts_with_vec(name, &loopp) || starts_with_vec(name, &ram) || starts_with_vec(
            name,
            &dm,
        )
    }

    /// The value of the first line that holds the field: the second
    /// colon-separated segment of that line, trimmed; `None` when no line
    /// mentions the field or the matching line has no colon.
    pub fn extract_field(output: &Vec<u8>, field_name: &Vec<u8>) -> (r: Option<Vec<u8>>)
        ensures
            (match r {
                Some(v) => Some(v@),
                None => None,
            }) == extract_field_spec(output@, field_name@),
            r is Some ==> contains_seq(output@, field_name@),
    {
        let lines = crate::bytes::split_lines(output);
        let ghost lv = lines_spec(output@);
        let mut li: usize = 0;
        let n = lines.len();
        while li < n
            invariant
                n == lines@.len(),
                0 <= li <= n,
                lv == lines_spec(output@),
                pieces_view(lines@) == lv,
                extract_field_spec(output@, field_name@) == field_scan(lv, li as int, field_name@),
                forall|a: int| #![trigger lines@[a]] 0 <= a < lines@.len()
                    ==> crate::bytes::is_slice_of(lines@[a]@, output@),
            decreases n - li,
        {
            let line = &lines[li];
            proof {
                assert(lines@[li as int]@ == lv[li as int]);
            }
            if contains_sub(line, field_name) {
                proof {
                    assert(crate::bytes::is_slice_of(line@, output@));
                    lemma_line_in_output(output@, line@, field_name@);
                }
                match find_byte_from(line, 0x3a, 0) {
                    Some(c1) => {
                        proof {
                            lemma_find_from(line@, 0x3a, 0);
                        }
                        let stop = match find_byte_from(line, 0x3a, c1 + 1) {
                            Some(c2) => c2,
                            None => line.len(),
                        };
                        proof {
                            lemma_find_from(line@, 0x3a, c1 + 1);
                        }
                        let segment = subvec(line, c1 + 1, stop);
                        return Some(trim_spaces(&segment));
                    },
                    None => {
                        return None;
                    },
                }
            }
            li += 1;
        }
        None
    }

    /// Media class from the device path and identity text.
    pub fn determine_drive_type(device_path: &str, smartctl_output: &Vec<u8>) -> (r: DriveType)
        ensures
            r == drive_type_spec(
                vstd::utf8::encode_utf8(device_path@),
                smartctl_output@,
            ),
    {
        let path = device_path.as_bytes_vec();
        let nvme: Vec<u8> = vec![0x6e, 0x76, 0x6d, 0x65];
        proof {
            assert(nvme@ =~= seq![0x6eu8, 0x76u8, 0x6du8, 0x65u8]);
        }
        if contains_sub(&path, &nvme) {
            return DriveType::NVMe;
        }
        let rotation: Vec<u8> = "Rotation Rate:".as_bytes_vec();
        let ssd_marker: Vec<u8> = "Solid State Device".as_bytes_vec();
        let zero_rpm: Vec<u8> = " 0 rpm".as_bytes_vec();
        if contains_sub(smartctl_output, &rotation) {
            if contains_sub(smartctl_output, &ssd_marker) || contains_sub(
                smartctl_output,
                &zero_rpm,
            ) {
                DriveType::SSD
            } else {
                DriveType::HDD
            }
        } else {
            DriveType::Unknown
        }
    }

    /// Encryption posture from the probe outcomes: an answering OPAL
    /// query wins, then a positive LUKS check, else none.
    pub fn detect_encryption(opal_responded: bool, luks_detected: bool) -> (r: EncryptionStatus)
        ensures
            opal_responded ==> r == EncryptionStatus::OPAL,
            (!opal_responded && luks_detected) ==> r == EncryptionStatus::LUKS,
            (!opal_responded && !luks_detected) ==> r == EncryptionStatus::NoEncryption,
    {
        if opal_responded {
            EncryptionStatus::OPAL
        } else if luks_detected {
            EncryptionStatus::LUKS
        } else {
            EncryptionStatus::NoEncryption
        }
    }
}

/// Any line of the split output is a substring of the output, so a match
/// inside a line is a match inside the output. Lines carry no newline
/// bytes, and the needle found in a line occurs in the whole text.
proof fn lemma_line_in_output(output: Seq<u8>, line: Seq<u8>, needle: Seq<u8>)
    requires
        crate::bytes::contains_seq(line, needle),
        crate::bytes::is_slice_of(line, output),
    ensures
        crate::bytes::contains_seq(output, needle),
{
    let i = choose|i: int| crate::bytes::matches_at(output, line, i);
    let k = choose|k: int| crate::bytes::matches_at(line, needle, k);
    assert(crate::bytes::matches_at(output, needle, i + k));
}

/// Whether `v` begins with `prefix`.
fn starts_with_vec(v: &Vec<u8>, prefix: &Vec<u8>) -> (r: bool)
    ensures
        r == starts_with(v@, prefix@),
{
    if prefix.len() > v.len() {
        return false;
    }
    let head = subvec(v, 0, prefix.len());
    crate::bytes::eq_vec(&head, prefix)
}

/// Hardware erase support checks for NVMe controllers, decided from
/// `nvme id-ctrl` text.
pub struct NVMeWipe;

impl NVMeWipe {
    /// The controller advertises the Format NVM command.
    pub fn supports_format_nvm(info: &Vec<u8>) -> (r: bool)
        ensures
            r == contains_seq(info@, vstd::utf8::encode_utf8("Format NVM Supported"@)),
    {
        let marker: Vec<u8> = "Format NVM Supported".as_bytes_vec();
        contains_sub(info, &marker)
    }

    /// The controller advertises the Sanitize command.
    pub fn supports_sanitize(info: &Vec<u8>) -> (r: bool)
        ensures
            r == contains_seq(info@, vstd::utf8::encode_utf8("Sanitize Operation Supported"@)),
    {
        let marker: Vec<u8> = "Sanitize Operation Supported".as_bytes_vec();
        contains_sub(info, &marker)
    }

    /// Which erase path the controller supports: Format NVM first,
    /// Sanitize second, neither is an error.
    pub fn select_erase_method(info: &Vec<u8>) -> (r: DriveResult<NvmeEraseMethod>)
        ensures
            contains_seq(info@, vstd::utf8::encode_utf8("Format NVM Supported"@)) <==> r
                == Ok::<NvmeEraseMethod, DriveError>(NvmeEraseMethod::FormatNvm),
            (!contains_seq(info@, vstd::utf8::encode_utf8("Format NVM Supported"@))
                && contains_seq(
                info@,
                vstd::utf8::encode_utf8("Sanitize Operation Supported"@),
            )) <==> r == Ok::<NvmeEraseMethod, DriveError>(NvmeEraseMethod::SanitizeCryptoErase),
            r is Err <==> (!contains_seq(info@, vstd::utf8::encode_utf8("Format NVM Supported"@))
                && !contains_seq(
                info@,
                vstd::utf8::encode_utf8("Sanitize Operation Supported"@),
            )),
    {
        if Self::supports_format_nvm(info) {
            Ok(NvmeEraseMethod::FormatNvm)
        } else if Self::supports_sanitize(info) {
            Ok(NvmeEraseMethod::SanitizeCryptoErase)
        } else {
            Err(
                DriveError::Unsupported(
                    "No secure erase method available for this NVMe device".to_owned(),
                ),
            )
        }
    }
}

/// The NVMe erase command to issue.
#[derive(Debug, Clone, Copy, PartialEq, Eq, Structural)]
pub enum NvmeEraseMethod {
    FormatNvm,
    SanitizeCryptoErase,
}

/// Hardware erase support check for ATA spinning drives, decided from
/// `hdparm -I` text.
pub struct HDDWipe;

impl HDDWipe {
    /// The drive advertises the enhanced security erase.
    pub fn supports_secure_erase(identify: &Vec<u8>) -> (r: bool)
        ensures
            r == contains_seq(identify@, vstd::utf8::encode_utf8("supported: enhanced erase"@)),
    {
        let marker: Vec<u8> = "supported: enhanced erase".as_bytes_vec();
        contains_sub(identify, &marker)
    }
}

/// Hardware erase support checks for SATA SSDs, decided from `hdparm -I`
/// text.
pub struct SSDWipe;

impl SSDWipe {
    /// The drive advertises the enhanced security erase.
    pub fn is_secure_erase_supported(identify: &Vec<u8>) -> (r: bool)
        ensures
            r == contains_seq(identify@, vstd::utf8::encode_utf8("supported: enhanced erase"@)),
    {
        let marker: Vec<u8> = "supported: enhanced erase".as_bytes_vec();
        contains_sub(identify, &marker)
    }

    /// The drive advertises TRIM.
    pub fn supports_trim(identify: &Vec<u8>) -> (r: bool)
        ensures
            r == contains_seq(
                identify@,
                vstd::utf8::encode_utf8("Data Set Management TRIM supported"@),
            ),
    {
        let marker: Vec<u8> = "Data Set Management TRIM supported".as_bytes_vec();
        contains_sub(identify, &marker)
    }

    /// The drive reports a frozen security state.
    pub fn is_frozen(identify: &Vec<u8>) -> (r: bool)
        ensures
            r == contains_seq(identify@, vstd::utf8::encode_utf8("frozen"@)),
    {
        let marker: Vec<u8> = "frozen".as_bytes_vec();
        contains_sub(identify, &marker)
    }
}

} // verus!
