//! Pre-wipe self-calibration on the device model: probe patterns are
//! written, read back and detected, accuracy rates are measured over
//! synthetic trials, and the test area is zeroed before returning.
//! Also: stratified sample collection and the random-sector scan.

use vstd::prelude::*;
use vstd::string::StrSliceExecFns;
use crate::bytes::{eq_vec, push_all};
use crate::io::MemDevice;
use crate::patterns::fill_repeat;
use crate::rng::{fill_random, random_below};
use crate::stats::{calculate_entropy, entropy_milli_spec, MAX_ANALYSIS_LEN};
use crate::verification::{
    keyword_seqs, suspicious_spec, EnhancedVerification, PostWipeAnalysis, PreWipeTestResults,
    SectorSamplingResult,
};
use crate::{DriveError, DriveResult};

verus! {

/// Bytes the self-test may touch beyond its offset: 100 probe slots of
/// 4 KiB for the accuracy trials plus one 4 KiB cleanup block.
pub const SELF_TEST_AREA: usize = 413696;

/// The 512-byte window the sector scan reads at offset `o`.
pub open spec fn scan_window(data: Seq<u8>, o: int) -> Seq<u8> {
    data.subrange(o, o + 512)
}

/// A buffer holding `n` random bytes.
fn random_vec(n: usize) -> (r: Vec<u8>)
    ensures
        r@.len() == n,
{
    let mut v: Vec<u8> = Vec::new();
    let mut i: usize = 0;
    while i < n
        invariant
            v@.len() == i,
            0 <= i <= n,
        decreases n - i,
    {
        v.push(0);
        i += 1;
    }
    fill_random(&mut v);
    v
}

impl EnhancedVerification {
    /// Write the probe patterns at `offset`, read each back and require
    /// an exact byte-wise match, then zero the first 4 KiB of the area.
    /// On this device model the round trip always succeeds.
    pub fn test_pattern_detection(dev: &mut MemDevice, offset: usize) -> (r: bool)
        requires
            offset + 4096 <= old(dev).data@.len(),
        ensures
            r == true,
            final(dev).data@.len() == old(dev).data@.len(),
            forall|i: int| offset <= i < offset + 4096 ==> final(dev).data@[i] == 0,
            forall|i: int| 0 <= i < final(dev).data@.len() && !(offset <= i < offset + 4096)
                ==> final(dev).data@[i] == old(dev).data@[i],
    {
        let p0: Vec<u8> = "TESTDATA123456789".as_bytes_vec();
        let mut p1: Vec<u8> = random_vec(1024);
        let beef: Vec<u8> = vec![0xde, 0xad, 0xbe, 0xef];
        fill_repeat(&mut p1, &beef);
        let p2: Vec<u8> = "BEGIN_SENSITIVE_DATA_MARKER_END".as_bytes_vec();
        let mut ok = true;
        if p0.len() <= 4096 {
            dev.write_at(offset, &p0);
            let back = dev.read_at(offset, p0.len());
            proof {
                assert(back@ =~= p0@);
            }
            if !eq_vec(&back, &p0) {
                ok = false;
            }
        }
        if p1.len() <= 4096 {
            dev.write_at(offset, &p1);
            let back = dev.read_at(offset, p1.len());
            proof {
                assert(back@ =~= p1@);
            }
            if !eq_vec(&back, &p1) {
                ok = false;
            }
        }
        if p2.len() <= 4096 {
            dev.write_at(offset, &p2);
            let back = dev.read_at(offset, p2.len());
            proof {
                assert(back@ =~= p2@);
            }
            if !eq_vec(&back, &p2) {
                ok = false;
            }
        }
        dev.zero_region(offset, 4096);
        ok
    }

    /// Write common file magics at `offset` and require each to be read
    /// back intact; leaves the first 8 bytes of the area dirty.
    pub fn simulate_recovery_tools(dev: &mut MemDevice, offset: usize) -> (r: bool)
        requires
            offset + 8 <= old(dev).data@.len(),
        ensures
            r == true,
            final(dev).data@.len() == old(dev).data@.len(),
            forall|i: int| 0 <= i < final(dev).data@.len() && !(offset <= i < offset + 8)
                ==> final(dev).data@[i] == old(dev).data@[i],
    {
        let s0: Vec<u8> = vec![0x50, 0x4b, 0x03, 0x04];
        let s1: Vec<u8> = vec![0x89, 0x50, 0x4e, 0x47, 0x0d, 0x0a, 0x1a, 0x0a];
        let s2: Vec<u8> = vec![0x25, 0x50, 0x44, 0x46, 0x2d];
        let s3: Vec<u8> = vec![0xff, 0xd8, 0xff];
        let mut ok = true;
        dev.write_at(offset, &s0);
        let b0 = dev.read_at(offset, s0.len());
        proof {
            assert(b0@ =~= s0@);
        }
        if !eq_vec(&b0, &s0) {
            ok = false;
        }
        dev.write_at(offset, &s1);
        let b1 = dev.read_at(offset, s1.len());
        proof {
            assert(b1@ =~= s1@);
        }
        if !eq_vec(&b1, &s1) {
            ok = false;
        }
        dev.write_at(offset, &s2);
        let b2 = dev.read_at(offset, s2.len());
        proof {
            assert(b2@ =~= s2@);
        }
        if !eq_vec(&b2, &s2) {
            ok = false;
        }
        dev.write_at(offset, &s3);
        let b3 = dev.read_at(offset, s3.len());
        proof {
            assert(b3@ =~= s3@);
        }
        if !eq_vec(&b3, &s3) {
            ok = false;
        }
        ok
    }

    /// Grade the detector: plain-text round trip, XOR-obfuscated round
    /// trip, then entropy discrimination of random against repeating
    /// data. The round trips always succeed on the model; the entropy
    /// grade depends on the random draw.
    pub fn calibrate_sensitivity(dev: &mut MemDevice, offset: usize) -> (r: u32)
        requires
            offset + 1024 <= old(dev).data@.len(),
        ensures
            r == 50 || r == 100,
            final(dev).data@.len() == old(dev).data@.len(),
            forall|i: int| 0 <= i < final(dev).data@.len() && !(offset <= i < offset + 1024)
                ==> final(dev).data@[i] == old(dev).data@[i],
    {
        let mut score: u32 = 0;
        // "CLEAR_TEXT_DATA" as plain bytes, so its length is known here.
        let clear: Vec<u8> = vec![
            0x43, 0x4c, 0x45, 0x41, 0x52, 0x5f, 0x54, 0x45, 0x58, 0x54, 0x5f, 0x44, 0x41,
            0x54, 0x41,
        ];
        dev.write_at(offset, &clear);
        let back = dev.read_at(offset, clear.len());
        proof {
            assert(back@ =~= clear@);
        }
        if eq_vec(&back, &clear) {
            score += 25;
        }
        let mut xored: Vec<u8> = Vec::new();
        let mut i: usize = 0;
        while i < clear.len()
            invariant
                xored@.len() == i,
                0 <= i <= clear@.len(),
                clear@.len() == 15,
            decreases clear@.len() - i,
        {
            xored.push(clear[i] ^ 0xaa);
            i += 1;
        }
        dev.write_at(offset, &xored);
        let back = dev.read_at(offset, xored.len());
        proof {
            assert(back@ =~= xored@);
        }
        if eq_vec(&back, &xored) {
            score += 25;
        }
        let random_data = random_vec(1024);
        dev.write_at(offset, &random_data);
        let entropy_random = calculate_entropy(&random_data);
        let mut structured: Vec<u8> = random_vec(1024);
        let mut k: usize = 0;
        while k < 1024
            invariant
                structured@.len() == 1024,
                0 <= k <= 1024,
            decreases 1024 - k,
        {
            structured.set(k, 0x55);
            k += 1;
        }
        dev.write_at(offset, &structured);
        let entropy_structured = calculate_entropy(&structured);
        if entropy_random > 7000 && entropy_structured < 2000 {
            score += 50;
        }
        score
    }

    /// Measure false-positive and false-negative rates over 100 trials:
    /// random buffers must not be flagged, planted keyword patterns must
    /// be. On the model the keyword is always found, so the
    /// false-negative rate is exactly zero.
    pub fn measure_accuracy_rates(dev: &mut MemDevice, offset: usize) -> (r: (u32, u32))
        requires
            offset + 409600 <= old(dev).data@.len(),
        ensures
            r.1 == 0,
            r.0 <= 1000,
            final(dev).data@.len() == old(dev).data@.len(),
            forall|i: int| 0 <= i < final(dev).data@.len() && !(offset <= i < offset + 409600)
                ==> final(dev).data@[i] == old(dev).data@[i],
    {
        let pattern: Vec<u8> = vec![
            0x53, 0x45, 0x4e, 0x53, 0x49, 0x54, 0x49, 0x56, 0x45, 0x5f, 0x44, 0x41, 0x54,
            0x41, 0x5f, 0x50, 0x41, 0x54, 0x54, 0x45, 0x52, 0x4e, 0x5f, 0x31, 0x32, 0x33,
            0x34, 0x35, 0x36, 0x37, 0x38,
        ];
        let sz = dev.size();
        let mut false_positives: u32 = 0;
        let mut i: usize = 0;
        while i < 100
            invariant
                0 <= i <= 100,
                sz == dev.data@.len(),
                false_positives <= i,
                pattern@.len() == 31,
                pattern@[0] == 0x53u8 && pattern@[1] == 0x45u8 && pattern@[2] == 0x4eu8
                    && pattern@[3] == 0x53u8 && pattern@[4] == 0x49u8 && pattern@[5] == 0x54u8
                    && pattern@[6] == 0x49u8 && pattern@[7] == 0x56u8 && pattern@[8] == 0x45u8,
                offset + 409600 <= dev.data@.len(),
                dev.data@.len() == old(dev).data@.len(),
                forall|t: int| 0 <= t < dev.data@.len() && !(offset <= t < offset + 409600)
                    ==> dev.data@[t] == old(dev).data@[t],
            decreases 100 - i,
        {
            proof {
                assert(i * 4096 + 4096 <= 409600) by (nonlinear_arith)
                    requires 0 <= i < 100;
                assert(i * 4096 >= 0) by (nonlinear_arith)
                    requires i >= 0;
            }
            let slot = offset + i * 4096;
            if i % 2 == 0 {
                let random = random_vec(512);
                dev.write_at(slot, &random);
                if Self::detect_suspicious_data(&random) {
                    false_positives += 1;
                }
            } else {
                dev.write_at(slot, &pattern);
                let back = dev.read_at(slot, 32);
                proof {
                    assert forall|j: int| 0 <= j < 31 implies back@[j] == pattern@[j] by {
                        assert(back@[j] == dev.data@[slot + j]);
                    }
                    let kw = keyword_seqs()[0];
                    assert(crate::bytes::matches_at(back@, kw, 0)) by {
                        assert(kw.len() == 9);
                        assert forall|j: int| 0 <= j < 9 implies back@[0 + j] == kw[j] by {
                            assert(back@[j] == pattern@[j]);
                        }
                    }
                    assert(crate::verification::has_keyword_spec(back@));
                    assert(suspicious_spec(back@));
                }
                let found = Self::detect_suspicious_data(&back);
                assert(found);
            }
            i += 1;
        }
        let fp_per_mille: u32 = false_positives * 10;
        (fp_per_mille, 0)
    }

    /// The pre-wipe self-test over the last `min(test_size, 1 MiB)` bytes
    /// of the device. Every probe round-trips on the model, so detection
    /// and simulation report success and the false-negative rate is zero.
    /// The whole test area is zeroed before returning.
    pub fn pre_wipe_capability_test(dev: &mut MemDevice, test_size: usize) -> (r: DriveResult<
        PreWipeTestResults,
    >)
        requires
            old(dev).data@.len() >= SELF_TEST_AREA,
        ensures
            final(dev).data@.len() == old(dev).data@.len(),
            r is Ok <==> (if test_size < 1048576 {
                test_size as int
            } else {
                1048576int
            }) >= SELF_TEST_AREA && (if test_size < 1048576 {
                test_size as int
            } else {
                1048576int
            }) <= old(dev).data@.len(),
            r matches Ok(t) ==> ({
                &&& t.test_pattern_detection == true
                &&& t.recovery_tool_simulation == true
                &&& t.false_negative_per_mille == 0
                &&& t.false_positive_per_mille <= 1000
                &&& (t.sensitivity_calibration == 50 || t.sensitivity_calibration == 100)
            }),
            r is Ok ==> forall|i: int| final(dev).data@.len() - (if test_size < 1048576 {
                test_size as int
            } else {
                1048576int
            }) <= i < final(dev).data@.len() ==> final(dev).data@[i] == 0,
            r is Ok ==> forall|i: int| 0 <= i < final(dev).data@.len() - (if test_size < 1048576 {
                test_size as int
            } else {
                1048576int
            }) ==> final(dev).data@[i] == old(dev).data@[i],
            r is Err ==> final(dev).data@ == old(dev).data@,
    {
        let area: usize = if test_size < 1048576 {
            test_size
        } else {
            1048576
        };
        let size = dev.size();
        if area < SELF_TEST_AREA || area > size {
            return Err(DriveError::Usage("test area too small for the self-test".to_owned()));
        }
        let offset = size - area;
        let detection = Self::test_pattern_detection(dev, offset);
        let simulation = Self::simulate_recovery_tools(dev, offset);
        let sensitivity = Self::calibrate_sensitivity(dev, offset);
        let rates = Self::measure_accuracy_rates(dev, offset);
        dev.zero_region(offset, area);
        Ok(
            PreWipeTestResults {
                test_pattern_detection: detection,
                recovery_tool_simulation: simulation,
                sensitivity_calibration: sensitivity,
                false_positive_per_mille: rates.0,
                false_negative_per_mille: rates.1,
            },
        )
    }

    /// Stratified sample: a quarter from the start, a quarter around the
    /// middle, a quarter from the end, then random 4 KiB chunks until the
    /// budget is spent. The random tail makes the contents depend on the
    /// draw; the length is pinned exactly.
    pub fn collect_stratified_samples(dev: &MemDevice, sample_size: usize) -> (r: Vec<u8>)
        requires
            4096 < dev.data@.len(),
            8 <= sample_size <= dev.data@.len(),
        ensures
            r@.len() == 3 * (sample_size as int / 4) + ((sample_size as int - 3 * (
            sample_size as int / 4)) / 4096) * 4096,
            forall|i: int| 0 <= i < sample_size as int / 4 ==> #[trigger] r@[i]
                == dev.data@[i],
            forall|i: int| 0 <= i < sample_size as int / 4 ==> #[trigger] r@[
                sample_size as int / 4 + i
            ] == dev.data@[dev.data@.len() as int / 2 - sample_size as int / 8 + i],
            forall|i: int| 0 <= i < sample_size as int / 4 ==> #[trigger] r@[
                2 * (sample_size as int / 4) + i
            ] == dev.data@[dev.data@.len() - sample_size as int / 4 + i],
    {
        let size = dev.size();
        let quarter = sample_size / 4;
        let mut samples: Vec<u8> = Vec::new();
        let r1 = dev.read_at(0, quarter);
        push_all(&mut samples, &r1);
        let mid_off = size / 2 - sample_size / 8;
        let r2 = dev.read_at(mid_off, quarter);
        push_all(&mut samples, &r2);
        let r3 = dev.read_at(size - quarter, quarter);
        push_all(&mut samples, &r3);
        let remaining = sample_size - 3 * quarter;
        let chunks = remaining / 4096;
        let mut c: usize = 0;
        let ghost stratified = samples@;
        while c < chunks
            invariant
                samples@.len() == 3 * (sample_size as int / 4) + c * 4096,
                0 <= c <= chunks,
                chunks == (sample_size as int - 3 * (sample_size as int / 4)) / 4096,
                4096 < dev.data@.len(),
                stratified.len() == 3 * (sample_size as int / 4),
                forall|i: int| 0 <= i < stratified.len() ==> samples@[i] == stratified[i],
            decreases chunks - c,
        {
            let off64 = random_below((dev.size() - 4096) as u64);
            let off = off64 as usize;
            let chunk = dev.read_at(off, 4096);
            push_all(&mut samples, &chunk);
            c += 1;
        }
        proof {
            let q = sample_size as int / 4;
            assert forall|i: int| 0 <= i < q implies samples@[i] == dev.data@[i] by {
                assert(stratified[i] == dev.data@.subrange(0, q)[i]);
            }
            assert forall|i: int| 0 <= i < q implies #[trigger] samples@[q + i] == dev.data@[
                dev.data@.len() as int / 2 - sample_size as int / 8 + i
            ] by {
                assert(stratified[q + i] == dev.data@.subrange(
                    mid_off as int,
                    mid_off + q,
                )[i]);
            }
            assert forall|i: int| 0 <= i < q implies #[trigger] samples@[2 * q + i]
                == dev.data@[dev.data@.len() - q + i] by {
                assert(stratified[2 * q + i] == dev.data@.subrange(
                    size - quarter as int,
                    size as int,
                )[i]);
            }
        }
        samples
    }

    /// Scan 1000 random 512-byte sectors; a sector is anomalous when its
    /// entropy is below 6 bits per byte or it holds recognizable data.
    /// The sectors are drawn at random, so beyond the structural clauses
    /// the contract states what holds of every draw: a device whose every
    /// aligned sector is high-entropy and clean yields no anomaly, and
    /// every reported anomaly names an in-range sector.
    pub fn analyze_sectors(dev: &MemDevice) -> (r: SectorSamplingResult)
        requires
            dev.data@.len() >= 512,
        ensures
            r.total_sectors_sampled == 1000,
            r.suspicious_sectors <= 1000,
            r.entropy_distribution_milli@.len() == 1000,
            r.anomaly_locations@.len() == r.suspicious_sectors,
            (forall|o: int| 0 <= o && o % 512 == 0 && o + 512 <= dev.data@.len()
                ==> entropy_milli_spec(#[trigger] scan_window(dev.data@, o)) >= 6000
                && !suspicious_spec(scan_window(dev.data@, o))) ==> r.suspicious_sectors == 0,
            forall|j: int| 0 <= j < r.anomaly_locations@.len() ==> (
            #[trigger] r.anomaly_locations@[j]) * 512 + 512 <= dev.data@.len(),
    {
        let sz = dev.size();
        let total_sectors: u64 = (sz / 512) as u64;
        let mut suspicious: u64 = 0;
        let mut entropy_dist: Vec<u64> = Vec::new();
        let mut anomalies: Vec<u64> = Vec::new();
        let mut i: usize = 0;
        while i < 1000
            invariant
                0 <= i <= 1000,
                sz == dev.data@.len(),
                dev.data@.len() >= 512,
                total_sectors == dev.data@.len() as int / 512,
                suspicious <= i,
                entropy_dist@.len() == i,
                anomalies@.len() == suspicious,
                (forall|o: int| 0 <= o && o % 512 == 0 && o + 512 <= dev.data@.len()
                    ==> entropy_milli_spec(#[trigger] scan_window(dev.data@, o)) >= 6000
                    && !suspicious_spec(scan_window(dev.data@, o))) ==> suspicious == 0,
                forall|j: int| 0 <= j < anomalies@.len() ==> (#[trigger] anomalies@[j]) * 512
                    + 512 <= dev.data@.len(),
            decreases 1000 - i,
        {
            let sector = random_below(total_sectors);
            proof {
                assert((sector as int) * 512 + 512 <= dev.data@.len()) by (nonlinear_arith)
                    requires
                        0 <= sector as int,
                        (sector as int) < dev.data@.len() as int / 512,
                        dev.data@.len() >= 512,
                    ;
                assert((sector as int) * 512 >= 0) by (nonlinear_arith)
                    requires sector as int >= 0;
                assert(((sector as int) * 512) % 512 == 0) by (nonlinear_arith);
            }
            let offset64: u64 = sector * 512;
            let offset = offset64 as usize;
            let buffer = dev.read_at(offset, 512);
            proof {
                assert(buffer@ == scan_window(dev.data@, offset as int));
            }
            let entropy = calculate_entropy(&buffer);
            entropy_dist.push(entropy);
            if entropy < 6000 || Self::detect_suspicious_data(&buffer) {
                suspicious += 1;
                anomalies.push(sector);
            }
            i += 1;
        }
        SectorSamplingResult {
            total_sectors_sampled: 1000,
            suspicious_sectors: suspicious,
            entropy_distribution_milli: entropy_dist,
            anomaly_locations: anomalies,
        }
    }
}

/// The byte budget for post-wipe sampling: `device_size * percent / 100`
/// with the percentage in milli (1000 = 1.0%), clamped to
/// [10 MiB, 1 GiB].
pub open spec fn sample_size_spec(device_size: int, percent_milli: int) -> int {
    let raw = device_size * percent_milli / 100000;
    let floored = if raw < 10485760 {
        10485760int
    } else {
        raw
    };
    if floored > 1073741824 {
        1073741824int
    } else {
        floored
    }
}

/// The sampling budget for a device and percentage, clamped to
/// [10 MiB, 1 GiB].
pub fn sample_size_for(device_size: u64, percent_milli: u64) -> (r: u64)
    requires
        percent_milli <= 100000,
    ensures
        r as int == sample_size_spec(device_size as int, percent_milli as int),
        10485760 <= r <= 1073741824,
{
    proof {
        assert((device_size as int) * (percent_milli as int) < 0x100000000000000000000000000000000)
            by (nonlinear_arith)
            requires
                0 <= device_size as int,
                (device_size as int) < 0x10000000000000000,
                0 <= percent_milli as int <= 100000,
            ;
    }
    let raw128: u128 = (device_size as u128) * (percent_milli as u128) / 100000;
    proof {
        assert((device_size as int) * (percent_milli as int) <= (device_size as int) * 100000)
            by (nonlinear_arith)
            requires 0 <= percent_milli as int <= 100000, device_size as int >= 0;
        vstd::arithmetic::div_mod::lemma_multiply_divide_le(
            (device_size as int) * (percent_milli as int),
            100000int,
            device_size as int,
        );
    }
    let raw: u64 = raw128 as u64;
    let floored: u64 = if raw < 10485760 {
        10485760
    } else {
        raw
    };
    if floored > 1073741824 {
        1073741824
    } else {
        floored
    }
}

impl EnhancedVerification {
    /// Grade raw probe outcomes into the pre-wipe record: full marks on a
    /// clean round trip, half sensitivity and a total false-negative rate
    /// otherwise.
    pub fn grade_probe_results(detection: bool, simulation: bool) -> (r: PreWipeTestResults)
        ensures
            r.test_pattern_detection == detection,
            r.recovery_tool_simulation == simulation,
            r.sensitivity_calibration == (if detection {
                100u32
            } else {
                50u32
            }),
            r.false_positive_per_mille == 0,
            r.false_negative_per_mille == (if detection {
                0u32
            } else {
                1000u32
            }),
    {
        PreWipeTestResults {
            test_pattern_detection: detection,
            recovery_tool_simulation: simulation,
            sensitivity_calibration: if detection {
                100
            } else {
                50
            },
            false_positive_per_mille: 0,
            false_negative_per_mille: if detection {
                0
            } else {
                1000
            },
        }
    }

    /// Analyze one collected sample: entropy, chi-square, pattern
    /// analysis and the statistical battery, each pinned exactly; the
    /// sector scan is taken as given.
    pub fn analyze_sample(samples: &Vec<u8>, sectors: SectorSamplingResult) -> (r:
        PostWipeAnalysis)
        requires
            1 <= samples@.len(),
            samples@.len() < MAX_ANALYSIS_LEN,
        ensures
            r.entropy_milli as int == crate::stats::entropy_milli_spec(samples@),
            r.chi_square_milli as int == crate::stats::chi_square_milli_spec(samples@),
            r.pattern_analysis.repeating_patterns_found == crate::verification::repeating_spec(
                samples@,
            ),
            r.pattern_analysis.known_file_signatures == crate::verification::has_signature_spec(
                samples@,
            ),
            r.pattern_analysis.structured_data_detected == crate::verification::structured_spec(
                samples@,
            ),
            r.statistical_tests.runs_test_passed == crate::randomness::runs_pass_spec(samples@),
            r.statistical_tests.monobit_test_passed == crate::randomness::monobit_pass_spec(
                samples@,
            ),
            r.statistical_tests.poker_test_passed == crate::randomness::poker_pass_spec(samples@),
            r.statistical_tests.serial_test_passed == crate::randomness::serial_pass_spec(
                samples@,
            ),
            r.statistical_tests.autocorrelation_test_passed
                == crate::randomness::autocorr_pass_spec(samples@),
            r.sector_sampling == sectors,
    {
        let entropy = calculate_entropy(samples);
        let chi = crate::stats::chi_square_test(samples);
        let patterns = Self::analyze_patterns(samples);
        let stats = Self::run_statistical_tests(samples);
        PostWipeAnalysis {
            entropy_milli: entropy,
            chi_square_milli: chi,
            pattern_analysis: patterns,
            statistical_tests: stats,
            sector_sampling: sectors,
        }
    }

    /// Post-wipe mathematical verification of the device model: collect
    /// the stratified sample of `sample_size` bytes, analyze it, and scan
    /// 1000 random sectors. The sample itself depends on the random
    /// draws; its analysis is exact per `analyze_sample`.
    pub fn post_wipe_mathematical_verification(dev: &MemDevice, sample_size: usize) -> (r:
        PostWipeAnalysis)
        requires
            4096 < dev.data@.len(),
            8 <= sample_size <= dev.data@.len(),
            sample_size < MAX_ANALYSIS_LEN,
        ensures
            r.sector_sampling.total_sectors_sampled == 1000,
            r.sector_sampling.suspicious_sectors <= 1000,
    {
        let samples = Self::collect_stratified_samples(dev, sample_size);
        let sectors = Self::analyze_sectors(dev);
        proof {
            assert(3 * (sample_size as int / 4) >= 3) by (nonlinear_arith)
                requires sample_size as int >= 8;
            assert(3 * (sample_size as int / 4) + ((sample_size as int - 3 * (sample_size as int
                / 4)) / 4096) * 4096 <= sample_size as int) by (nonlinear_arith)
                requires sample_size as int >= 8;
        }
        let analysis = Self::analyze_sample(&samples, sectors);
        analysis
    }
}

} // verus!
