//! Post-wipe sample analysis: file-signature scan, repeating-window and
//! low-entropy detection, suspicious-data classification, and the combined
//! statistical test battery.

use vstd::prelude::*;
use crate::bytes::{contains_seq, contains_sub, subvec};
use crate::stats::{
    calculate_entropy, chi_square_milli_spec, chi_square_test, count_byte, entropy_milli_spec,
    MAX_ANALYSIS_LEN,
};
use crate::randomness::{
    autocorr_pass_spec, autocorrelation_test, monobit_pass_spec, monobit_test, poker_pass_spec,
    poker_test, runs_pass_spec, runs_test, serial_pass_spec, serial_test,
};

verus! {

/// Results of the pre-wipe self-test; rates in per-mille.
#[derive(Debug, Clone, Copy, PartialEq, Eq, Structural)]
pub struct PreWipeTestResults {
    pub test_pattern_detection: bool,
    pub recovery_tool_simulation: bool,
    pub sensitivity_calibration: u32,
    pub false_positive_per_mille: u32,
    pub false_negative_per_mille: u32,
}

/// Pattern findings over the sample; the compression ratio is the number
/// of distinct byte values scaled to milli (1000 = all 256 seen).
#[derive(Debug, Clone, Copy, PartialEq, Eq, Structural)]
pub struct PatternAnalysis {
    pub repeating_patterns_found: bool,
    pub known_file_signatures: bool,
    pub structured_data_detected: bool,
    pub compression_ratio_milli: u32,
}

/// Pass flags of the five randomness tests.
#[derive(Debug, Clone, Copy, PartialEq, Eq, Structural)]
pub struct StatisticalTests {
    pub runs_test_passed: bool,
    pub monobit_test_passed: bool,
    pub poker_test_passed: bool,
    pub serial_test_passed: bool,
    pub autocorrelation_test_passed: bool,
}

/// Outcome of the random-sector scan; entropies in milli-bits.
#[derive(Debug, Clone)]
pub struct SectorSamplingResult {
    pub total_sectors_sampled: u64,
    pub suspicious_sectors: u64,
    pub entropy_distribution_milli: Vec<u64>,
    pub anomaly_locations: Vec<u64>,
}

/// The complete post-wipe analysis in integer fixed point.
#[derive(Debug, Clone)]
pub struct PostWipeAnalysis {
    pub entropy_milli: u64,
    pub chi_square_milli: u64,
    pub pattern_analysis: PatternAnalysis,
    pub statistical_tests: StatisticalTests,
    pub sector_sampling: SectorSamplingResult,
}

/// The statistical verification engine.
pub struct EnhancedVerification;

/// The file magics the scan looks for: PDF, ZIP, PNG, GIF, JPEG, ID3,
/// RIFF and MZ headers.
pub open spec fn signature_seqs() -> Seq<Seq<u8>> {
    seq![
        seq![0x25u8, 0x50u8, 0x44u8, 0x46u8],
        seq![0x50u8, 0x4bu8, 0x03u8, 0x04u8],
        seq![0x89u8, 0x50u8, 0x4eu8, 0x47u8],
        seq![0x47u8, 0x49u8, 0x46u8, 0x38u8],
        seq![0xffu8, 0xd8u8, 0xffu8],
        seq![0x49u8, 0x44u8, 0x33u8],
        seq![0x52u8, 0x49u8, 0x46u8, 0x46u8],
        seq![0x4du8, 0x5au8],
    ]
}

/// Some known file magic occurs in the sample.
pub open spec fn has_signature_spec(s: Seq<u8>) -> bool {
    exists|k: int| 0 <= k < signature_seqs().len() && contains_seq(s, signature_seqs()[k])
}

/// Keywords whose presence marks a sector as holding recognizable data.
pub open spec fn keyword_seqs() -> Seq<Seq<u8>> {
    seq![
        seq![0x53u8, 0x45u8, 0x4eu8, 0x53u8, 0x49u8, 0x54u8, 0x49u8, 0x56u8, 0x45u8],
        seq![0x50u8, 0x41u8, 0x53u8, 0x53u8, 0x57u8, 0x4fu8, 0x52u8, 0x44u8],
        seq![0x53u8, 0x45u8, 0x43u8, 0x52u8, 0x45u8, 0x54u8],
        seq![0x50u8, 0x52u8, 0x49u8, 0x56u8, 0x41u8, 0x54u8, 0x45u8],
        seq![0x25u8, 0x50u8, 0x44u8, 0x46u8],
        seq![0x50u8, 0x4bu8, 0x03u8, 0x04u8],
    ]
}

/// Some keyword or magic occurs in the sample.
pub open spec fn has_keyword_spec(s: Seq<u8>) -> bool {
    exists|k: int| 0 <= k < keyword_seqs().len() && contains_seq(s, keyword_seqs()[k])
}

/// A sample shorter than 32 bytes is never flagged; otherwise it is
/// suspicious when a keyword occurs or its entropy falls below 6 bits.
pub open spec fn suspicious_spec(s: Seq<u8>) -> bool {
    if s.len() < 32 {
        false
    } else {
        has_keyword_spec(s) || entropy_milli_spec(s) < 6000
    }
}

/// Number of full `w`-byte chunks among the first `upto` that equal the
/// first chunk.
pub open spec fn chunk_match_count(s: Seq<u8>, w: int, upto: int) -> int
    decreases upto,
{
    if upto <= 0 {
        0
    } else {
        chunk_match_count(s, w, upto - 1) + if s.subrange((upto - 1) * w, (upto - 1) * w + w)
            == s.subrange(0, w) {
            1int
        } else {
            0int
        }
    }
}

/// The first `w`-byte window repeats across more than half the chunks.
pub open spec fn repeating_for_window(s: Seq<u8>, w: int) -> bool {
    chunk_match_count(s, w, s.len() as int / w) > s.len() as int / w / 2
}

/// Repeating 4-, 8- or 16-byte windows dominate the sample.
pub open spec fn repeating_spec(s: Seq<u8>) -> bool {
    s.len() >= 32 && (repeating_for_window(s, 4) || repeating_for_window(s, 8)
        || repeating_for_window(s, 16))
}

/// Number of 1 KiB chunks (the last one possibly short).
pub open spec fn n_chunks(len: int) -> int {
    (len + 1023) / 1024
}

/// Chunk `k` of the sample, 1 KiB each, the last one possibly short.
pub open spec fn chunk_at(s: Seq<u8>, k: int) -> Seq<u8> {
    s.subrange(
        k * 1024,
        if k * 1024 + 1024 <= s.len() {
            k * 1024 + 1024
        } else {
            s.len() as int
        },
    )
}

/// Some 1 KiB chunk has entropy below 4 bits per byte.
pub open spec fn structured_spec(s: Seq<u8>) -> bool {
    exists|k: int| 0 <= k < n_chunks(s.len() as int) && entropy_milli_spec(#[trigger] chunk_at(s, k))
        < 4000
}

/// Number of distinct byte values among the first `b`.
pub open spec fn distinct_partial(s: Seq<u8>, b: int) -> int
    decreases b,
{
    if b <= 0 {
        0
    } else {
        distinct_partial(s, b - 1) + if count_byte(s, (b - 1) as u8) > 0 {
            1int
        } else {
            0int
        }
    }
}

/// Distinct byte values scaled to milli: `distinct * 1000 / 256`.
pub open spec fn compression_ratio_milli_spec(s: Seq<u8>) -> int {
    distinct_partial(s, 256) * 1000 / 256
}

impl EnhancedVerification {
    /// Shannon entropy of a sample in milli-bits.
    pub fn calculate_entropy(data: &Vec<u8>) -> (e: u64)
        ensures
            e as int == entropy_milli_spec(data@),
            e <= 8000,
    {
        calculate_entropy(data)
    }

    /// Chi-square statistic of a sample in milli-units.
    pub fn chi_square_test(data: &Vec<u8>) -> (x: u64)
        requires
            data@.len() < MAX_ANALYSIS_LEN,
        ensures
            x as int == chi_square_milli_spec(data@),
    {
        chi_square_test(data)
    }

    /// Run statistical tests wrappers, one flag per test.
    pub fn run_statistical_tests(data: &Vec<u8>) -> (r: StatisticalTests)
        requires
            1 <= data@.len(),
            data@.len() as u64 <= MAX_ANALYSIS_LEN,
        ensures
            r.runs_test_passed == runs_pass_spec(data@),
            r.monobit_test_passed == monobit_pass_spec(data@),
            r.poker_test_passed == poker_pass_spec(data@),
            r.serial_test_passed == serial_pass_spec(data@),
            r.autocorrelation_test_passed == autocorr_pass_spec(data@),
    {
        StatisticalTests {
            runs_test_passed: Self::runs_test(data),
            monobit_test_passed: Self::monobit_test(data),
            poker_test_passed: Self::poker_test(data),
            serial_test_passed: Self::serial_test(data),
            autocorrelation_test_passed: Self::autocorrelation_test(data),
        }
    }

    /// Runs test (99% two-sided bound on the run count).
    pub fn runs_test(data: &Vec<u8>) -> (r: bool)
        requires
            1 <= data@.len(),
            data@.len() as u64 <= MAX_ANALYSIS_LEN,
        ensures
            r == runs_pass_spec(data@),
    {
        runs_test(data)
    }

    /// Monobit test.
    pub fn monobit_test(data: &Vec<u8>) -> (r: bool)
        requires
            data@.len() as u64 <= MAX_ANALYSIS_LEN,
        ensures
            r == monobit_pass_spec(data@),
    {
        monobit_test(data)
    }

    /// Poker test over 4-bit blocks.
    pub fn poker_test(data: &Vec<u8>) -> (r: bool)
        requires
            data@.len() as u64 <= MAX_ANALYSIS_LEN,
        ensures
            r == poker_pass_spec(data@),
    {
        poker_test(data)
    }

    /// Serial test over 2-bit blocks.
    pub fn serial_test(data: &Vec<u8>) -> (r: bool)
        requires
            data@.len() as u64 <= MAX_ANALYSIS_LEN,
        ensures
            r == serial_pass_spec(data@),
    {
        serial_test(data)
    }

    /// Autocorrelation test at lags up to 100.
    pub fn autocorrelation_test(data: &Vec<u8>) -> (r: bool)
        requires
            data@.len() as u64 <= MAX_ANALYSIS_LEN,
        ensures
            r == autocorr_pass_spec(data@),
    {
        autocorrelation_test(data)
    }

    /// Whether a buffer holds recognizable (non-wiped) content: a known
    /// keyword or magic, or entropy below 6 bits per byte.
    pub fn detect_suspicious_data(data: &Vec<u8>) -> (r: bool)
        ensures
            r == suspicious_spec(data@),
    {
        if data.len() < 32 {
            return false;
        }
        let k0: Vec<u8> = vec![0x53, 0x45, 0x4e, 0x53, 0x49, 0x54, 0x49, 0x56, 0x45];
        let k1: Vec<u8> = vec![0x50, 0x41, 0x53, 0x53, 0x57, 0x4f, 0x52, 0x44];
        let k2: Vec<u8> = vec![0x53, 0x45, 0x43, 0x52, 0x45, 0x54];
        let k3: Vec<u8> = vec![0x50, 0x52, 0x49, 0x56, 0x41, 0x54, 0x45];
        let k4: Vec<u8> = vec![0x25, 0x50, 0x44, 0x46];
        let k5: Vec<u8> = vec![0x50, 0x4b, 0x03, 0x04];
        proof {
            assert(k0@ =~= keyword_seqs()[0]);
            assert(k1@ =~= keyword_seqs()[1]);
            assert(k2@ =~= keyword_seqs()[2]);
            assert(k3@ =~= keyword_seqs()[3]);
            assert(k4@ =~= keyword_seqs()[4]);
            assert(k5@ =~= keyword_seqs()[5]);
        }
        if contains_sub(data, &k0) || contains_sub(data, &k1) || contains_sub(data, &k2)
            || contains_sub(data, &k3) || contains_sub(data, &k4) || contains_sub(data, &k5) {
            proof {
                assert(has_keyword_spec(data@));
            }
            return true;
        }
        proof {
            assert(!has_keyword_spec(data@)) by {
                assert forall|k: int| 0 <= k < keyword_seqs().len() implies !contains_seq(
                    data@,
                    keyword_seqs()[k],
                ) by {
                    assert(keyword_seqs().len() == 6);
                }
            }
        }
        let entropy = calculate_entropy(data);
        entropy < 6000
    }

    /// Whether some known file magic occurs in the sample.
    pub fn has_file_signatures(data: &Vec<u8>) -> (r: bool)
        ensures
            r == has_signature_spec(data@),
    {
        let s0: Vec<u8> = vec![0x25, 0x50, 0x44, 0x46];
        let s1: Vec<u8> = vec![0x50, 0x4b, 0x03, 0x04];
        let s2: Vec<u8> = vec![0x89, 0x50, 0x4e, 0x47];
        let s3: Vec<u8> = vec![0x47, 0x49, 0x46, 0x38];
        let s4: Vec<u8> = vec![0xff, 0xd8, 0xff];
        let s5: Vec<u8> = vec![0x49, 0x44, 0x33];
        let s6: Vec<u8> = vec![0x52, 0x49, 0x46, 0x46];
        let s7: Vec<u8> = vec![0x4d, 0x5a];
        proof {
            assert(s0@ =~= signature_seqs()[0]);
            assert(s1@ =~= signature_seqs()[1]);
            assert(s2@ =~= signature_seqs()[2]);
            assert(s3@ =~= signature_seqs()[3]);
            assert(s4@ =~= signature_seqs()[4]);
            assert(s5@ =~= signature_seqs()[5]);
            assert(s6@ =~= signature_seqs()[6]);
            assert(s7@ =~= signature_seqs()[7]);
        }
        if contains_sub(data, &s0) || contains_sub(data, &s1) || contains_sub(data, &s2)
            || contains_sub(data, &s3) || contains_sub(data, &s4) || contains_sub(data, &s5)
            || contains_sub(data, &s6) || contains_sub(data, &s7) {
            proof {
                assert(has_signature_spec(data@));
            }
            return true;
        }
        proof {
            assert(!has_signature_spec(data@)) by {
                assert forall|k: int| 0 <= k < signature_seqs().len() implies !contains_seq(
                    data@,
                    signature_seqs()[k],
                ) by {
                    assert(signature_seqs().len() == 8);
                }
            }
        }
        false
    }

    /// Whether the first `w`-byte window repeats across more than half of
    /// the sample's `w`-byte chunks.
    fn repeating_window(data: &Vec<u8>, w: usize) -> (r: bool)
        requires
            4 <= w <= 16,
            w <= data@.len(),
        ensures
            r == repeating_for_window(data@, w as int),
    {
        let n = data.len();
        let chunks: usize = n / w;
        let mut count: u64 = 0;
        let mut k: usize = 0;
        while k < chunks
            invariant
                4 <= w <= 16,
                w <= n,
                n == data@.len(),
                chunks == n as int / w as int,
                0 <= k <= chunks,
                count == chunk_match_count(data@, w as int, k as int),
                count <= k,
            decreases chunks - k,
        {
            proof {
                assert((k as int) * (w as int) + w <= n as int) by (nonlinear_arith)
                    requires
                        (k as int) < (chunks as int),
                        chunks == n as int / w as int,
                        4 <= w as int,
                        0 <= k as int,
                        n >= 0,
                    ;
                assert((k as int) * (w as int) >= 0) by (nonlinear_arith)
                    requires k as int >= 0, w as int >= 4;
            }
            let start = k * w;
            let mut same = true;
            let mut j: usize = 0;
            while j < w
                invariant
                    0 <= j <= w,
                    start == k as int * w as int,
                    start + w <= n,
                    n == data@.len(),
                    same ==> data@.subrange(start as int, start + j) == data@.subrange(
                        0,
                        j as int,
                    ),
                    !same ==> data@.subrange(start as int, start + w) != data@.subrange(
                        0,
                        w as int,
                    ),
                ensures
                    same ==> data@.subrange(start as int, start + w) == data@.subrange(
                        0,
                        w as int,
                    ),
                    !same ==> data@.subrange(start as int, start + w) != data@.subrange(
                        0,
                        w as int,
                    ),
                decreases w - j,
            {
                if data[start + j] != data[j] {
                    proof {
                        let sub_k = data@.subrange(start as int, start + w);
                        let sub_0 = data@.subrange(0, w as int);
                        assert(sub_k[j as int] == data@[start + j as int]);
                        assert(sub_0[j as int] == data@[j as int]);
                        assert(sub_k != sub_0);
                    }
                    same = false;
                    break;
                }
                let ghost prev_k = data@.subrange(start as int, start + j);
                let ghost prev_0 = data@.subrange(0, j as int);
                j += 1;
                proof {
                    assert(data@.subrange(start as int, start + j) =~= prev_k.push(
                        data@[start + j - 1],
                    ));
                    assert(data@.subrange(0, j as int) =~= prev_0.push(data@[j - 1]));
                }
            }
            if same {
                count += 1;
            }
            k += 1;
        }
        let half: usize = chunks / 2;
        count > half as u64
    }

    /// Pattern analysis over the sample: repeating windows, known file
    /// magics, low-entropy chunks, and the distinct-byte ratio.
    pub fn analyze_patterns(data: &Vec<u8>) -> (r: PatternAnalysis)
        ensures
            r.repeating_patterns_found == repeating_spec(data@),
            r.known_file_signatures == has_signature_spec(data@),
            r.structured_data_detected == structured_spec(data@),
            r.compression_ratio_milli as int == compression_ratio_milli_spec(data@),
    {
        let repeating: bool = if data.len() >= 32 {
            Self::repeating_window(data, 4) || Self::repeating_window(data, 8)
                || Self::repeating_window(data, 16)
        } else {
            false
        };
        let signatures = Self::has_file_signatures(data);
        let structured = Self::structured_chunks(data);
        let ratio = Self::distinct_ratio_milli(data);
        PatternAnalysis {
            repeating_patterns_found: repeating,
            known_file_signatures: signatures,
            structured_data_detected: structured,
            compression_ratio_milli: ratio,
        }
    }

    /// Whether some 1 KiB chunk of the sample has entropy below 4 bits.
    fn structured_chunks(data: &Vec<u8>) -> (r: bool)
        ensures
            r == structured_spec(data@),
    {
        let n = data.len();
        let mut k: usize = 0;
        let total: usize = if n % 1024 == 0 {
            n / 1024
        } else {
            n / 1024 + 1
        };
        proof {
            assert(total as int == n_chunks(n as int));
        }
        while k < total
            invariant
                n == data@.len(),
                total as int == n_chunks(n as int),
                0 <= k <= total,
                forall|t: int| 0 <= t < k ==> entropy_milli_spec(#[trigger] chunk_at(data@, t))
                    >= 4000,
            decreases total - k,
        {
            proof {
                assert((k as int) * 1024 < n as int && k as int * 1024 >= 0) by (nonlinear_arith)
                    requires
                        0 <= k as int,
                        (k as int) < (total as int),
                        total as int == (n as int + 1023) / 1024,
                        n >= 0,
                    ;
            }
            let start = k * 1024;
            let stop = if n - start >= 1024 {
                start + 1024
            } else {
                n
            };
            let chunk = subvec(data, start, stop);
            proof {
                assert(chunk@ =~= chunk_at(data@, k as int));
            }
            let e = calculate_entropy(&chunk);
            if e < 4000 {
                proof {
                    assert(structured_spec(data@));
                }
                return true;
            }
            k += 1;
        }
        false
    }

    /// Distinct byte values in the sample, scaled to milli of 256.
    fn distinct_ratio_milli(data: &Vec<u8>) -> (r: u32)
        ensures
            r as int == compression_ratio_milli_spec(data@),
            r <= 1000,
    {
        let h = crate::stats::byte_histogram(data);
        let mut distinct: u32 = 0;
        let mut b: usize = 0;
        while b < 256
            invariant
                h@.len() == 256,
                forall|t: int| 0 <= t < 256 ==> (#[trigger] h@[t]) as int == count_byte(
                    data@,
                    t as u8,
                ),
                0 <= b <= 256,
                distinct == distinct_partial(data@, b as int),
                distinct <= b,
            decreases 256 - b,
        {
            if h[b] > 0 {
                distinct += 1;
            }
            b += 1;
        }
        distinct * 1000 / 256
    }
}

} // verus!
