//! Pass-pattern generation: the 35-entry Gutmann schedule, constant and
//! repeating fills, and encoding-specific pattern selection.

use vstd::prelude::*;
use vstd::string::StrSliceExecFns;
use crate::bytes::contains_sub;

verus! {

/// Magnetic encoding family of a drive, used to pick a reduced pass set.
#[derive(Debug, Clone, Copy, PartialEq, Eq, Structural)]
pub enum DriveEncoding {
    MFM,
    RLL,
    PRML,
    Unknown,
}

/// View of one schedule entry: `None` means a random pass.
pub open spec fn entry_view(e: Option<Vec<u8>>) -> Option<Seq<u8>> {
    match e {
        Some(v) => Some(v@),
        None => None,
    }
}

/// The Gutmann schedule, entry by entry: entries 0..4 and 31..35 are random;
/// the middle 27 are fixed one- or three-byte repeating patterns.
pub open spec fn gutmann_entry_spec(i: int) -> Option<Seq<u8>> {
    if i < 4 {
        None
    } else if i == 4 {
        Some(seq![0x55u8])
    } else if i == 5 {
        Some(seq![0xaau8])
    } else if i == 6 {
        Some(seq![0x92u8, 0x49u8, 0x24u8])
    } else if i == 7 {
        Some(seq![0x49u8, 0x24u8, 0x92u8])
    } else if i == 8 {
        Some(seq![0x24u8, 0x92u8, 0x49u8])
    } else if 9 <= i <= 24 {
        Some(seq![(0x11 * (i - 9)) as u8])
    } else if i == 25 {
        Some(seq![0x92u8, 0x49u8, 0x24u8])
    } else if i == 26 {
        Some(seq![0x49u8, 0x24u8, 0x92u8])
    } else if i == 27 {
        Some(seq![0x24u8, 0x92u8, 0x49u8])
    } else if i == 28 {
        Some(seq![0x6du8, 0xb6u8, 0xdbu8])
    } else if i == 29 {
        Some(seq![0xb6u8, 0xdbu8, 0x6du8])
    } else if i == 30 {
        Some(seq![0xdbu8, 0x6du8, 0xb6u8])
    } else {
        None
    }
}

pub const GUTMANN_PASSES: usize = 35;

/// Secure-erase pass schedules and encoding-aware selection.
pub struct GutmannWipe;

impl GutmannWipe {
    /// One entry of the schedule; `None` stands for a random pass.
    pub fn gutmann_pattern(i: usize) -> (r: Option<Vec<u8>>)
        requires
            i < 35,
        ensures
            entry_view(r) == gutmann_entry_spec(i as int),
            r matches Some(p) ==> p@.len() > 0,
    {
        if i < 4 {
            None
        } else if i == 4 {
            Some(vec![0x55])
        } else if i == 5 {
            Some(vec![0xaa])
        } else if i == 6 {
            let p = vec![0x92, 0x49, 0x24];
            assert(p@ =~= seq![0x92u8, 0x49u8, 0x24u8]);
            Some(p)
        } else if i == 7 {
            let p = vec![0x49, 0x24, 0x92];
            assert(p@ =~= seq![0x49u8, 0x24u8, 0x92u8]);
            Some(p)
        } else if i == 8 {
            let p = vec![0x24, 0x92, 0x49];
            assert(p@ =~= seq![0x24u8, 0x92u8, 0x49u8]);
            Some(p)
        } else if i <= 24 {
            let b: u8 = (0x11 * (i - 9)) as u8;
            let p = vec![b];
            assert(p@ =~= seq![(0x11 * (i - 9)) as u8]);
            Some(p)
        } else if i == 25 {
            let p = vec![0x92, 0x49, 0x24];
            assert(p@ =~= seq![0x92u8, 0x49u8, 0x24u8]);
            Some(p)
        } else if i == 26 {
            let p = vec![0x49, 0x24, 0x92];
            assert(p@ =~= seq![0x49u8, 0x24u8, 0x92u8]);
            Some(p)
        } else if i == 27 {
            let p = vec![0x24, 0x92, 0x49];
            assert(p@ =~= seq![0x24u8, 0x92u8, 0x49u8]);
            Some(p)
        } else if i == 28 {
            let p = vec![0x6d, 0xb6, 0xdb];
            assert(p@ =~= seq![0x6du8, 0xb6u8, 0xdbu8]);
            Some(p)
        } else if i == 29 {
            let p = vec![0xb6, 0xdb, 0x6d];
            assert(p@ =~= seq![0xb6u8, 0xdbu8, 0x6du8]);
            Some(p)
        } else if i == 30 {
            let p = vec![0xdb, 0x6d, 0xb6];
            assert(p@ =~= seq![0xdbu8, 0x6du8, 0xb6u8]);
            Some(p)
        } else {
            None
        }
    }

    /// The full 35-entry table.
    pub fn gutmann_patterns() -> (r: Vec<Option<Vec<u8>>>)
        ensures
            r@.len() == 35,
            forall|i: int| 0 <= i < 35 ==> entry_view(#[trigger] r@[i]) == gutmann_entry_spec(i),
    {
        let mut r: Vec<Option<Vec<u8>>> = Vec::new();
        let mut i: usize = 0;
        while i < 35
            invariant
                0 <= i <= 35,
                r@.len() == i,
                forall|k: int| 0 <= k < i ==> entry_view(#[trigger] r@[k]) == gutmann_entry_spec(k),
            decreases 35 - i,
        {
            r.push(Self::gutmann_pattern(i));
            i += 1;
        }
        r
    }

    /// Schedule indices suited to an encoding; `Unknown` keeps all 35.
    pub fn get_optimized_patterns(encoding: DriveEncoding) -> (r: Vec<usize>)
        ensures
            r@ == optimized_indices_spec(encoding),
            encoding == DriveEncoding::Unknown <==> r@.len() == 35,
            forall|k: int| 0 <= k < r@.len() ==> (#[trigger] r@[k]) < 35,
    {
        let r: Vec<usize> = match encoding {
            DriveEncoding::MFM => {
                let v = vec![0, 1, 2, 3, 4, 5, 6, 7, 8, 31, 32, 33, 34];
                assert(v@ =~= optimized_indices_spec(DriveEncoding::MFM));
                v
            },
            DriveEncoding::RLL => {
                let v = vec![0, 1, 2, 3, 4, 5, 25, 26, 27, 28, 29, 30, 31, 32, 33, 34];
                assert(v@ =~= optimized_indices_spec(DriveEncoding::RLL));
                v
            },
            DriveEncoding::PRML => {
                let v = vec![0, 1, 2, 3, 31, 32, 33, 34];
                assert(v@ =~= optimized_indices_spec(DriveEncoding::PRML));
                v
            },
            DriveEncoding::Unknown => {
                let mut v: Vec<usize> = Vec::new();
                let mut i: usize = 0;
                while i < 35
                    invariant
                        0 <= i <= 35,
                        v@.len() == i,
                        forall|k: int| 0 <= k < i ==> (#[trigger] v@[k]) == k,
                    decreases 35 - i,
                {
                    v.push(i);
                    i += 1;
                }
                assert(v@ =~= optimized_indices_spec(DriveEncoding::Unknown));
                v
            },
        };
        assert(forall|k: int|
            0 <= k < optimized_indices_spec(encoding).len()
                ==> (#[trigger] optimized_indices_spec(encoding)[k]) < 35);
        r
    }

    /// Classify the encoding family from the device path alone: every drive
    /// current enough to carry an NVMe or SCSI-disk name records with PRML;
    /// anything else cannot be told apart without hardware access.
    pub fn detect_drive_encoding(device_path: &str) -> (r: DriveEncoding)
        ensures
            r == drive_encoding_spec(device_path@),
    {
        let path = device_path.as_bytes_vec();
        let nvme = vec![0x6eu8, 0x76, 0x6d, 0x65];
        let sd = vec![0x2fu8, 0x73, 0x64];
        proof {
            assert(nvme@ =~= seq![0x6eu8, 0x76u8, 0x6du8, 0x65u8]);
            assert(sd@ =~= seq![0x2fu8, 0x73u8, 0x64u8]);
        }
        if contains_sub(&path, &nvme) || contains_sub(&path, &sd) {
            DriveEncoding::PRML
        } else {
            DriveEncoding::Unknown
        }
    }
}

/// The encoding inferred from a device path: NVMe and SCSI-disk names
/// mean PRML recording; anything else is unknown.
pub open spec fn drive_encoding_spec(path: Seq<char>) -> DriveEncoding {
    let bytes = vstd::utf8::encode_utf8(path);
    if crate::bytes::contains_seq(bytes, seq![0x6eu8, 0x76u8, 0x6du8, 0x65u8])
        || crate::bytes::contains_seq(bytes, seq![0x2fu8, 0x73u8, 0x64u8]) {
        DriveEncoding::PRML
    } else {
        DriveEncoding::Unknown
    }
}

/// The index set picked for each encoding.
pub open spec fn optimized_indices_spec(encoding: DriveEncoding) -> Seq<usize> {
    match encoding {
        DriveEncoding::MFM => seq![
            0usize, 1usize, 2usize, 3usize, 4usize, 5usize, 6usize, 7usize, 8usize,
            31usize, 32usize, 33usize, 34usize,
        ],
        DriveEncoding::RLL => seq![
            0usize, 1usize, 2usize, 3usize, 4usize, 5usize, 25usize, 26usize, 27usize,
            28usize, 29usize, 30usize, 31usize, 32usize, 33usize, 34usize,
        ],
        DriveEncoding::PRML => seq![
            0usize, 1usize, 2usize, 3usize, 31usize, 32usize, 33usize, 34usize,
        ],
        DriveEncoding::Unknown => Seq::new(35, |i: int| i as usize),
    }
}

/// Byte `i` of an endless repetition of `p`.
pub open spec fn repeat_byte(p: Seq<u8>, i: int) -> u8
    recommends
        p.len() > 0,
{
    p[i % (p.len() as int)]
}

/// Fill the whole buffer with one byte value.
pub fn fill_constant(buf: &mut Vec<u8>, value: u8)
    ensures
        final(buf)@.len() == old(buf)@.len(),
        forall|i: int| 0 <= i < final(buf)@.len() ==> final(buf)@[i] == value,
{
    let n = buf.len();
    let mut i: usize = 0;
    while i < n
        invariant
            0 <= i <= n,
            buf@.len() == n,
            forall|k: int| 0 <= k < i ==> buf@[k] == value,
        decreases n - i,
    {
        buf.set(i, value);
        i += 1;
    }
}

/// Fill the buffer with `pattern` repeated: `buf[i] = pattern[i % len]`.
pub fn fill_repeat(buf: &mut Vec<u8>, pattern: &Vec<u8>)
    requires
        pattern@.len() > 0,
    ensures
        final(buf)@.len() == old(buf)@.len(),
        forall|i: int| 0 <= i < final(buf)@.len() ==> final(buf)@[i] == repeat_byte(pattern@, i),
{
    let n = buf.len();
    let m = pattern.len();
    let mut i: usize = 0;
    while i < n
        invariant
            0 <= i <= n,
            buf@.len() == n,
            m == pattern@.len(),
            m > 0,
            forall|k: int| 0 <= k < i ==> buf@[k] == repeat_byte(pattern@, k),
        decreases n - i,
    {
        buf.set(i, pattern[i % m]);
        i += 1;
    }
}


/// The schedule satisfies the fixed points of the original paper:
/// entries 0..4 and 31..35 are random; entry 4 is `0x55` and entry 5 is
/// `0xAA`; entries 6..9 are the three-byte MFM patterns; entry 9 is
/// `0x00` and entry 24 is `0xFF`; entries 28..31 are the three-byte RLL
/// patterns.
pub proof fn lemma_gutmann_schedule()
    ensures
        forall|i: int| (0 <= i < 4 || 31 <= i < 35) ==> (#[trigger] gutmann_entry_spec(i)) is None,
        gutmann_entry_spec(4) == Some(seq![0x55u8]),
        gutmann_entry_spec(5) == Some(seq![0xaau8]),
        gutmann_entry_spec(6) == Some(seq![0x92u8, 0x49u8, 0x24u8]),
        gutmann_entry_spec(7) == Some(seq![0x49u8, 0x24u8, 0x92u8]),
        gutmann_entry_spec(8) == Some(seq![0x24u8, 0x92u8, 0x49u8]),
        gutmann_entry_spec(9) == Some(seq![0x00u8]),
        gutmann_entry_spec(24) == Some(seq![0xffu8]),
        gutmann_entry_spec(28) == Some(seq![0x6du8, 0xb6u8, 0xdbu8]),
        gutmann_entry_spec(29) == Some(seq![0xb6u8, 0xdbu8, 0x6du8]),
        gutmann_entry_spec(30) == Some(seq![0xdbu8, 0x6du8, 0xb6u8]),
{
    assert(seq![(0x11 * (9 - 9)) as u8] =~= seq![0x00u8]);
    assert(seq![(0x11 * (24 - 9)) as u8] =~= seq![0xffu8]);
}

} // verus!
