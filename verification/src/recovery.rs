//! Post-wipe recovery testing on the device model: random sectors are
//! read and held against a uniformity heuristic, and the leading region
//! is graded by entropy.

use vstd::prelude::*;
use crate::io::MemDevice;
use crate::rng::random_below;
use crate::stats::{calculate_entropy, count_byte, entropy_milli_spec};

verus! {

/// The window the recovery test reads at offset `o`: up to 4 KiB.
pub open spec fn sample_window(data: Seq<u8>, o: int) -> Seq<u8> {
    data.subrange(
        o,
        if o + 4096 <= data.len() {
            o + 4096
        } else {
            data.len() as int
        },
    )
}

/// The leading region whose entropy the recovery test grades.
pub open spec fn leading_region(data: Seq<u8>) -> Seq<u8> {
    data.subrange(
        0,
        if data.len() < 104857600 {
            data.len() as int
        } else {
            104857600int
        },
    )
}

/// Verifies that wiped data resists recovery.
pub struct RecoveryTest;

/// The uniformity heuristic: a sector counts as wiped unless 80% or more
/// of it is the same `0x00` or `0xFF` byte (a straight constant fill is
/// what naive recovery looks for first).
pub open spec fn sector_wiped_spec(s: Seq<u8>) -> bool {
    let threshold = s.len() * 8 / 10;
    count_byte(s, 0x00) < threshold && count_byte(s, 0xff) < threshold
}

impl RecoveryTest {
    /// 1000 random sector offsets, each a multiple of 512 inside the
    /// device.
    pub fn generate_test_sectors(size: u64) -> (r: Vec<u64>)
        requires
            size >= 512,
        ensures
            r@.len() == 1000,
            forall|k: int| 0 <= k < r@.len() ==> (#[trigger] r@[k]) % 512 == 0 && r@[k] + 512
                <= size,
    {
        let total_sectors = size / 512;
        let mut r: Vec<u64> = Vec::new();
        let mut i: usize = 0;
        while i < 1000
            invariant
                size >= 512,
                total_sectors == size as int / 512,
                r@.len() == i,
                0 <= i <= 1000,
                forall|k: int| 0 <= k < r@.len() ==> (#[trigger] r@[k]) % 512 == 0 && r@[k]
                    + 512 <= size,
            decreases 1000 - i,
        {
            let sector = random_below(total_sectors);
            proof {
                assert((sector as int) * 512 + 512 <= size && ((sector as int) * 512) % 512 == 0
                    && (sector as int) * 512 >= 0) by (nonlinear_arith)
                    requires
                        0 <= sector as int,
                        (sector as int) < size as int / 512,
                        size >= 512,
                    ;
            }
            r.push(sector * 512);
            i += 1;
        }
        r
    }

    /// The uniformity heuristic on one sector buffer.
    pub fn verify_sector_wiped(buffer: &Vec<u8>) -> (r: bool)
        ensures
            r == sector_wiped_spec(buffer@),
    {
        let n = buffer.len();
        let h = crate::stats::byte_histogram(buffer);
        let zeros = h[0];
        let ffs = h[255];
        proof {
            vstd::arithmetic::div_mod::lemma_multiply_divide_le(
                (n as int) * 8,
                10int,
                n as int,
            );
        }
        let threshold128: u128 = ((n as u128) * 8) / 10;
        let threshold: u64 = threshold128 as u64;
        proof {
            assert(h@[0] as int == count_byte(buffer@, 0x00));
            assert(h@[255] as int == count_byte(buffer@, 0xff));
        }
        zeros < threshold && ffs < threshold
    }

    /// Sample 1000 random sectors and grade the leading region's
    /// entropy. A verdict of `true` needs every sampled sector to pass
    /// the uniformity heuristic and the leading region to carry more
    /// than 7.5 bits of entropy per byte; a leading region at or below
    /// that bound always fails.
    pub fn verify_wipe(dev: &MemDevice) -> (r: bool)
        requires
            512 <= dev.data@.len(),
        ensures
            r ==> entropy_milli_spec(leading_region(dev.data@)) > 7500,
            (entropy_milli_spec(leading_region(dev.data@)) > 7500 && forall|o: int|
                0 <= o && o % 512 == 0 && o + 512 <= dev.data@.len() ==> sector_wiped_spec(
                #[trigger] sample_window(dev.data@, o),
            )) ==> r == true,
    {
        let size = dev.size();
        let sectors = Self::generate_test_sectors(size as u64);
        let mut k: usize = 0;
        let mut all_clean = true;
        while k < 1000
            invariant
                sectors@.len() == 1000,
                0 <= k <= 1000,
                size == dev.data@.len(),
                512 <= dev.data@.len(),
                forall|t: int| 0 <= t < sectors@.len() ==> (#[trigger] sectors@[t]) % 512 == 0
                    && sectors@[t] + 512 <= size,
                (forall|o: int| 0 <= o && o % 512 == 0 && o + 512 <= dev.data@.len()
                    ==> sector_wiped_spec(#[trigger] sample_window(dev.data@, o))) ==> all_clean
                    == true,
            decreases 1000 - k,
        {
            let offset = sectors[k] as usize;
            let len = if size - offset >= 4096 {
                4096
            } else {
                size - offset
            };
            let buffer = dev.read_at(offset, len);
            proof {
                assert(buffer@ == sample_window(dev.data@, offset as int));
            }
            if !Self::verify_sector_wiped(&buffer) {
                all_clean = false;
            }
            k += 1;
        }
        let sample_len: usize = if size < 104857600 {
            size
        } else {
            104857600
        };
        let sample = dev.read_at(0, sample_len);
        let entropy = calculate_entropy(&sample);
        all_clean && entropy > 7500
    }
}

} // verus!
