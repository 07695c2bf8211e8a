//! The overwrite algorithms, proved against the in-memory device model:
//! single-pass zero, single-pass random, the three-pass DoD 5220.22-M
//! schedule, and the 35-pass Gutmann schedule.

use vstd::prelude::*;
use crate::io::MemDevice;
use crate::patterns::{entry_view, gutmann_entry_spec, repeat_byte, GutmannWipe};

verus! {

/// Record of one completed pass: the repeating pattern written, or `None`
/// for a random pass, and how many bytes the pass wrote.
pub struct PassLog {
    pub pattern: Option<Vec<u8>>,
    pub bytes_written: usize,
}

/// Single-pass zero overwrite.
pub struct ZeroWipe;

impl ZeroWipe {
    /// One pass of `0x00` over the whole device.
    pub fn wipe_drive(dev: &mut MemDevice) -> (logs: Vec<PassLog>)
        ensures
            final(dev).data@.len() == old(dev).data@.len(),
            forall|i: int| 0 <= i < final(dev).data@.len() ==> final(dev).data@[i] == 0,
            logs@.len() == 1,
            entry_view(logs@[0].pattern) == Some(seq![0x00u8]),
            logs@[0].bytes_written == old(dev).data@.len(),
    {
        let written = DoDWipe::write_pattern(dev, 0x00);
        let mut logs: Vec<PassLog> = Vec::new();
        logs.push(PassLog { pattern: Some(vec![0x00]), bytes_written: written });
        assert(entry_view(logs@[0].pattern) == Some(seq![0x00u8])) by {
            assert(logs@[0].pattern->Some_0@ =~= seq![0x00u8]);
        }
        logs
    }
}

/// Single-pass cryptographically random overwrite.
pub struct RandomWipe;

impl RandomWipe {
    /// One pass of random bytes over the whole device.
    pub fn wipe_drive(dev: &mut MemDevice) -> (logs: Vec<PassLog>)
        ensures
            final(dev).data@.len() == old(dev).data@.len(),
            logs@.len() == 1,
            entry_view(logs@[0].pattern) is None,
            logs@[0].bytes_written == old(dev).data@.len(),
    {
        let written = Self::write_random(dev);
        let mut logs: Vec<PassLog> = Vec::new();
        logs.push(PassLog { pattern: None, bytes_written: written });
        logs
    }

    /// One random pass; returns the bytes written.
    pub fn write_random(dev: &mut MemDevice) -> (written: usize)
        ensures
            final(dev).data@.len() == old(dev).data@.len(),
            written == old(dev).data@.len(),
    {
        dev.random_pass()
    }
}

/// Three-pass DoD 5220.22-M overwrite: `0x00`, `0xFF`, random.
pub struct DoDWipe;

impl DoDWipe {
    /// The full three-pass schedule; each pass covers the whole device.
    pub fn wipe_drive(dev: &mut MemDevice) -> (logs: Vec<PassLog>)
        ensures
            final(dev).data@.len() == old(dev).data@.len(),
            logs@.len() == 3,
            entry_view(logs@[0].pattern) == Some(seq![0x00u8]),
            entry_view(logs@[1].pattern) == Some(seq![0xffu8]),
            entry_view(logs@[2].pattern) is None,
            forall|k: int| 0 <= k < 3 ==> (#[trigger] logs@[k]).bytes_written
                == old(dev).data@.len(),
    {
        let mut logs: Vec<PassLog> = Vec::new();
        let w0 = Self::write_pattern(dev, 0x00);
        logs.push(PassLog { pattern: Some(vec![0x00]), bytes_written: w0 });
        let w1 = Self::write_pattern(dev, 0xff);
        logs.push(PassLog { pattern: Some(vec![0xff]), bytes_written: w1 });
        let w2 = Self::write_random(dev);
        logs.push(PassLog { pattern: None, bytes_written: w2 });
        assert(entry_view(logs@[0].pattern) == Some(seq![0x00u8])) by {
            assert(logs@[0].pattern->Some_0@ =~= seq![0x00u8]);
        }
        assert(entry_view(logs@[1].pattern) == Some(seq![0xffu8])) by {
            assert(logs@[1].pattern->Some_0@ =~= seq![0xffu8]);
        }
        logs
    }

    /// The three-pass schedule as data: zeros, ones, then a random pass,
    /// for shells that drive the passes themselves.
    pub fn dod_patterns() -> (r: Vec<Option<Vec<u8>>>)
        ensures
            r@.len() == 3,
            entry_view(r@[0]) == Some(seq![0x00u8]),
            entry_view(r@[1]) == Some(seq![0xffu8]),
            entry_view(r@[2]) is None,
            forall|k: int| 0 <= k < 3 ==> ((#[trigger] r@[k]) matches Some(p) ==> p@.len() > 0),
    {
        let mut r: Vec<Option<Vec<u8>>> = Vec::new();
        let zeros: Vec<u8> = vec![0x00];
        let ones: Vec<u8> = vec![0xff];
        proof {
            assert(zeros@ =~= seq![0x00u8]);
            assert(ones@ =~= seq![0xffu8]);
        }
        r.push(Some(zeros));
        r.push(Some(ones));
        r.push(None);
        r
    }

    /// One pass of a single constant byte; returns the bytes written.
    pub fn write_pattern(dev: &mut MemDevice, value: u8) -> (written: usize)
        ensures
            final(dev).data@.len() == old(dev).data@.len(),
            written == old(dev).data@.len(),
            forall|i: int| 0 <= i < final(dev).data@.len() ==> final(dev).data@[i] == value,
    {
        let pattern: Vec<u8> = vec![value];
        assert(pattern@ =~= seq![value]);
        let written = dev.pattern_pass(&pattern);
        assert forall|i: int| 0 <= i < final(dev).data@.len()
            implies final(dev).data@[i] == value by {
            assert(repeat_byte(pattern@, i) == pattern@[i % 1]);
        }
        written
    }

    /// One random pass; returns the bytes written.
    pub fn write_random(dev: &mut MemDevice) -> (written: usize)
        ensures
            final(dev).data@.len() == old(dev).data@.len(),
            written == old(dev).data@.len(),
    {
        dev.random_pass()
    }
}

impl GutmannWipe {
    /// The full 35-pass Gutmann schedule; pass `k` writes the schedule's
    /// entry `k` (random where the entry is `None`) over the whole device.
    pub fn wipe_drive(dev: &mut MemDevice) -> (logs: Vec<PassLog>)
        ensures
            final(dev).data@.len() == old(dev).data@.len(),
            logs@.len() == 35,
            forall|k: int| 0 <= k < 35 ==> entry_view((#[trigger] logs@[k]).pattern)
                == gutmann_entry_spec(k),
            forall|k: int| 0 <= k < 35 ==> (#[trigger] logs@[k]).bytes_written
                == old(dev).data@.len(),
    {
        let mut logs: Vec<PassLog> = Vec::new();
        let mut pass: usize = 0;
        while pass < 35
            invariant
                0 <= pass <= 35,
                logs@.len() == pass,
                dev.data@.len() == old(dev).data@.len(),
                forall|k: int| 0 <= k < pass ==> entry_view((#[trigger] logs@[k]).pattern)
                    == gutmann_entry_spec(k),
                forall|k: int| 0 <= k < pass ==> (#[trigger] logs@[k]).bytes_written
                    == old(dev).data@.len(),
            decreases 35 - pass,
        {
            let entry = Self::gutmann_pattern(pass);
            let written: usize = match &entry {
                Some(p) => dev.pattern_pass(p),
                None => dev.random_pass(),
            };
            logs.push(PassLog { pattern: entry, bytes_written: written });
            pass += 1;
        }
        logs
    }
}


impl GutmannWipe {
    /// Check that a completed pattern pass is actually on the device:
    /// succeeds exactly when every byte matches the repeating pattern.
    pub fn verify_pattern(dev: &MemDevice, pattern: &Vec<u8>) -> (r: crate::DriveResult<()>)
        requires
            pattern@.len() > 0,
        ensures
            r is Ok <==> (forall|i: int| 0 <= i < dev.data@.len() ==> dev.data@[i]
                == repeat_byte(pattern@, i)),
    {
        let n = dev.size();
        let m = pattern.len();
        let mut i: usize = 0;
        while i < n
            invariant
                0 <= i <= n,
                n == dev.data@.len(),
                m == pattern@.len(),
                m > 0,
                forall|k: int| 0 <= k < i ==> dev.data@[k] == repeat_byte(pattern@, k),
            decreases n - i,
        {
            if dev.data[i] != pattern[i % m] {
                proof {
                    assert(dev.data@[i as int] != repeat_byte(pattern@, i as int));
                }
                return Err(
                    crate::DriveError::HardwareCommandFailed(
                        "pattern verification mismatch".to_owned(),
                    ),
                );
            }
            i += 1;
        }
        Ok(())
    }
}

} // verus!
