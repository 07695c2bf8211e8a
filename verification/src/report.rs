//! Confidence scoring and the verification report: a weighted sum in
//! tenths of a percent (1000 = 100.0%), the compliance mapping, and the
//! threshold gate the orchestrator enforces.

use vstd::prelude::*;
use vstd::arithmetic::div_mod::lemma_div_is_ordered;
use crate::verification::{PostWipeAnalysis, PreWipeTestResults, StatisticalTests};
use crate::{DriveError, DriveResult};

verus! {

/// How many of the five randomness tests passed.
pub open spec fn passed_count(st: StatisticalTests) -> int {
    (if st.runs_test_passed {
        1int
    } else {
        0int
    }) + (if st.monobit_test_passed {
        1int
    } else {
        0int
    }) + (if st.poker_test_passed {
        1int
    } else {
        0int
    }) + (if st.serial_test_passed {
        1int
    } else {
        0int
    }) + (if st.autocorrelation_test_passed {
        1int
    } else {
        0int
    })
}

/// Points for the pre-wipe self-test: 10% for pattern detection, 10% for
/// the recovery simulation, 10% for a false-negative rate below 1%.
pub open spec fn pre_wipe_points(pre: PreWipeTestResults) -> int {
    (if pre.test_pattern_detection {
        100int
    } else {
        0int
    }) + (if pre.recovery_tool_simulation {
        100int
    } else {
        0int
    }) + (if pre.false_negative_per_mille < 10 {
        100int
    } else {
        0int
    })
}

/// Points for the entropy score: 30% above 7.8 bits, falling off below.
pub open spec fn entropy_points(entropy_milli: int) -> int {
    if entropy_milli > 7800 {
        300
    } else if entropy_milli > 7500 {
        250
    } else if entropy_milli > 7000 {
        200
    } else {
        0
    }
}

/// Points for the pattern analysis: 3% + 4% + 3% for clean findings.
pub open spec fn pattern_points(pa: crate::verification::PatternAnalysis) -> int {
    (if !pa.repeating_patterns_found {
        30int
    } else {
        0int
    }) + (if !pa.known_file_signatures {
        40int
    } else {
        0int
    }) + (if !pa.structured_data_detected {
        30int
    } else {
        0int
    })
}

/// Points for sector cleanliness: 10% scaled by the clean ratio.
pub open spec fn sector_points(total: int, suspicious: int) -> int {
    if total > 0 && 0 <= suspicious <= total {
        (total - suspicious) * 100 / total
    } else {
        0
    }
}

/// The confidence score in tenths of a percent, capped at 1000:
/// pre-wipe 30%, entropy 30%, statistical battery 20% (4% a test),
/// pattern analysis 10%, sector cleanliness 10%.
pub open spec fn confidence_spec(pre: PreWipeTestResults, post: PostWipeAnalysis) -> int {
    let total = pre_wipe_points(pre) + entropy_points(post.entropy_milli as int) + 40
        * passed_count(post.statistical_tests) + pattern_points(post.pattern_analysis)
        + sector_points(
        post.sector_sampling.total_sectors_sampled as int,
        post.sector_sampling.suspicious_sectors as int,
    );
    if total > 1000 {
        1000
    } else {
        total
    }
}

/// Sector-cleanliness points: the clean fraction scaled to 100 tenths.
fn clean_ratio_points(total: u64, susp: u64) -> (r: u32)
    ensures
        r as int == sector_points(total as int, susp as int),
        r <= 100,
{
    if total > 0 && susp <= total {
        let clean: u128 = ((total - susp) as u128) * 100 / (total as u128);
        proof {
            vstd::arithmetic::div_mod::lemma_multiply_divide_le(
                ((total - susp) as int) * 100,
                total as int,
                100int,
            );
            assert(((total - susp) as int) * 100 <= (total as int) * 100) by (nonlinear_arith)
                requires 0 <= (total - susp) as int <= total as int;
        }
        clean as u32
    } else {
        0
    }
}

/// Pre-wipe self-test points.
fn pre_points_exec(pre: &PreWipeTestResults) -> (r: u32)
    ensures
        r as int == pre_wipe_points(*pre),
        r <= 300,
{
    let mut pts: u32 = 0;
    if pre.test_pattern_detection {
        pts += 100;
    }
    if pre.recovery_tool_simulation {
        pts += 100;
    }
    if pre.false_negative_per_mille < 10 {
        pts += 100;
    }
    pts
}

/// Entropy points.
fn entropy_points_exec(entropy_milli: u64) -> (r: u32)
    ensures
        r as int == entropy_points(entropy_milli as int),
        r <= 300,
{
    if entropy_milli > 7800 {
        300
    } else if entropy_milli > 7500 {
        250
    } else if entropy_milli > 7000 {
        200
    } else {
        0
    }
}

/// Statistical battery points: 4% for each passed test.
fn stat_points_exec(st: &StatisticalTests) -> (r: u32)
    ensures
        r as int == 40 * passed_count(*st),
        r <= 200,
{
    let mut pts: u32 = 0;
    if st.runs_test_passed {
        pts += 40;
    }
    if st.monobit_test_passed {
        pts += 40;
    }
    if st.poker_test_passed {
        pts += 40;
    }
    if st.serial_test_passed {
        pts += 40;
    }
    if st.autocorrelation_test_passed {
        pts += 40;
    }
    pts
}

/// Pattern-analysis points.
fn pattern_points_exec(pa: &crate::verification::PatternAnalysis) -> (r: u32)
    ensures
        r as int == pattern_points(*pa),
        r <= 100,
{
    let mut pts: u32 = 0;
    if !pa.repeating_patterns_found {
        pts += 30;
    }
    if !pa.known_file_signatures {
        pts += 40;
    }
    if !pa.structured_data_detected {
        pts += 30;
    }
    pts
}

impl crate::verification::EnhancedVerification {
    /// The confidence score in tenths of a percent.
    pub fn calculate_confidence_level(pre: &PreWipeTestResults, post: &PostWipeAnalysis) -> (c:
        u32)
        ensures
            c as int == confidence_spec(*pre, *post),
            c <= 1000,
    {
        let pre_pts = pre_points_exec(pre);
        let ent_pts = entropy_points_exec(post.entropy_milli);
        let stat_pts = stat_points_exec(&post.statistical_tests);
        let pat_pts = pattern_points_exec(&post.pattern_analysis);
        let sec_pts: u32 = clean_ratio_points(
            post.sector_sampling.total_sectors_sampled,
            post.sector_sampling.suspicious_sectors,
        );
        let mut score: u32 = pre_pts + ent_pts + stat_pts + pat_pts + sec_pts;
        if score > 1000 {
            score = 1000;
        }
        score
    }
}

/// One analysis dominates another: every check it passes, the other
/// passes too, with at least as good an entropy and sector outcome over
/// the same sampling size.
pub open spec fn at_least_as_good(
    pre_a: PreWipeTestResults,
    post_a: PostWipeAnalysis,
    pre_b: PreWipeTestResults,
    post_b: PostWipeAnalysis,
) -> bool {
    &&& pre_a.test_pattern_detection ==> pre_b.test_pattern_detection
    &&& pre_a.recovery_tool_simulation ==> pre_b.recovery_tool_simulation
    &&& pre_b.false_negative_per_mille <= pre_a.false_negative_per_mille
    &&& post_b.entropy_milli >= post_a.entropy_milli
    &&& post_a.statistical_tests.runs_test_passed ==> post_b.statistical_tests.runs_test_passed
    &&& post_a.statistical_tests.monobit_test_passed
        ==> post_b.statistical_tests.monobit_test_passed
    &&& post_a.statistical_tests.poker_test_passed ==> post_b.statistical_tests.poker_test_passed
    &&& post_a.statistical_tests.serial_test_passed
        ==> post_b.statistical_tests.serial_test_passed
    &&& post_a.statistical_tests.autocorrelation_test_passed
        ==> post_b.statistical_tests.autocorrelation_test_passed
    &&& post_b.pattern_analysis.repeating_patterns_found
        ==> post_a.pattern_analysis.repeating_patterns_found
    &&& post_b.pattern_analysis.known_file_signatures
        ==> post_a.pattern_analysis.known_file_signatures
    &&& post_b.pattern_analysis.structured_data_detected
        ==> post_a.pattern_analysis.structured_data_detected
    &&& post_b.sector_sampling.total_sectors_sampled
        == post_a.sector_sampling.total_sectors_sampled
    &&& post_b.sector_sampling.suspicious_sectors <= post_a.sector_sampling.suspicious_sectors
    &&& post_a.sector_sampling.suspicious_sectors
        <= post_a.sector_sampling.total_sectors_sampled
}

/// Confidence is monotone: passing an additional check, raising the
/// entropy, or cleaning up sectors never lowers the score.
pub proof fn lemma_confidence_monotone(
    pre_a: PreWipeTestResults,
    post_a: PostWipeAnalysis,
    pre_b: PreWipeTestResults,
    post_b: PostWipeAnalysis,
)
    requires
        at_least_as_good(pre_a, post_a, pre_b, post_b),
    ensures
        confidence_spec(pre_b, post_b) >= confidence_spec(pre_a, post_a),
{
    let ta = post_a.sector_sampling.total_sectors_sampled as int;
    let sa = post_a.sector_sampling.suspicious_sectors as int;
    let tb = post_b.sector_sampling.total_sectors_sampled as int;
    let sb = post_b.sector_sampling.suspicious_sectors as int;
    assert(sector_points(tb, sb) >= sector_points(ta, sa)) by {
        if ta > 0 {
            assert((ta - sa) * 100 <= (tb - sb) * 100) by (nonlinear_arith)
                requires ta - sa <= tb - sb;
            lemma_div_is_ordered((ta - sa) * 100, (tb - sb) * 100, ta);
        }
    }
}

/// Enforce the operator's confidence threshold: at or above the required
/// level the check passes; below it the session fails with both values.
pub fn check_confidence(got_tenths: u32, required_tenths: u32) -> (r: DriveResult<()>)
    ensures
        r is Ok <==> got_tenths >= required_tenths,
        r is Err ==> (r matches Err(
            DriveError::VerificationBelowThreshold { got_tenths: g, required_tenths: q },
        ) && g == got_tenths && q == required_tenths),
{
    if got_tenths >= required_tenths {
        Ok(())
    } else {
        Err(DriveError::VerificationBelowThreshold { got_tenths, required_tenths })
    }
}

/// The compliance standards satisfied by a given analysis and score.
pub open spec fn compliance_spec(post: PostWipeAnalysis, conf: int) -> Seq<Seq<char>> {
    (if conf >= 990 {
        seq!["DoD 5220.22-M"@, "NIST 800-88 Rev. 1"@]
    } else {
        Seq::<Seq<char>>::empty()
    }) + (if conf >= 950 {
        seq!["PCI DSS v3.2.1"@, "HIPAA Security Rule"@]
    } else {
        Seq::<Seq<char>>::empty()
    }) + (if post.entropy_milli > 7500 && conf >= 900 {
        seq!["ISO/IEC 27001:2013"@, "GDPR Article 32"@]
    } else {
        Seq::<Seq<char>>::empty()
    }) + (if post.pattern_analysis.compression_ratio_milli > 900 {
        seq!["NSA Storage Device Sanitization"@]
    } else {
        Seq::<Seq<char>>::empty()
    })
}

/// The operator guidance for a given analysis and score: a graded pair
/// of messages, plus warnings on suspicious sectors and low entropy.
pub open spec fn recommendations_spec(post: PostWipeAnalysis, conf: int) -> Seq<Seq<char>> {
    (if conf >= 999 {
        seq![
            "Drive is certified completely sanitized with highest confidence"@,
            "Safe for disposal, resale, or redeployment"@,
        ]
    } else if conf >= 950 {
        seq![
            "Drive sanitization successful with high confidence"@,
            "Suitable for most compliance requirements"@,
        ]
    } else if conf >= 900 {
        seq![
            "Drive sanitization completed but with reduced confidence"@,
            "Consider physical destruction for highly sensitive data"@,
        ]
    } else {
        seq![
            "Sanitization confidence below acceptable threshold"@,
            "Recommend physical destruction or additional wipe passes"@,
        ]
    }) + (if post.sector_sampling.suspicious_sectors > 0 {
        seq!["Suspicious sectors detected - may require targeted overwrite"@]
    } else {
        Seq::<Seq<char>>::empty()
    }) + (if post.entropy_milli < 7500 {
        seq!["Entropy below optimal level - consider additional random overwrite"@]
    } else {
        Seq::<Seq<char>>::empty()
    })
}

/// A verification report; the timestamp is RFC 3339 text, the confidence
/// is in tenths of a percent.
#[derive(Debug, Clone)]
pub struct VerificationReport {
    pub device_path: String,
    pub timestamp_rfc3339: String,
    pub pre_wipe_tests: PreWipeTestResults,
    pub post_wipe_analysis: PostWipeAnalysis,
    pub confidence_tenths: u32,
    pub verification_method: String,
    pub compliance_standards: Vec<String>,
    pub recommendations: Vec<String>,
}

/// Relies on `chrono::Utc::now` and `chrono::DateTime::to_rfc3339`: the
/// current wall-clock instant as RFC 3339 text. The value depends on the
/// clock, so nothing is promised beyond it being some string.
#[verifier::external_body]
fn now_rfc3339() -> (r: String)
    ensures
        r@.len() >= 0,
{
    chrono::Utc::now().to_rfc3339()
}

impl crate::verification::EnhancedVerification {
    /// The compliance standards satisfied at the given confidence.
    pub fn determine_compliance(post: &PostWipeAnalysis, confidence_tenths: u32) -> (r: Vec<
        String,
    >)
        ensures
            r@.map_values(|s: String| s@) == compliance_spec(*post, confidence_tenths as int),
    {
        let mut r: Vec<String> = Vec::new();
        if confidence_tenths >= 990 {
            r.push("DoD 5220.22-M".to_owned());
            r.push("NIST 800-88 Rev. 1".to_owned());
        }
        if confidence_tenths >= 950 {
            r.push("PCI DSS v3.2.1".to_owned());
            r.push("HIPAA Security Rule".to_owned());
        }
        if post.entropy_milli > 7500 && confidence_tenths >= 900 {
            r.push("ISO/IEC 27001:2013".to_owned());
            r.push("GDPR Article 32".to_owned());
        }
        if post.pattern_analysis.compression_ratio_milli > 900 {
            r.push("NSA Storage Device Sanitization".to_owned());
        }
        proof {
            assert(r@.map_values(|s: String| s@) =~= compliance_spec(
                *post,
                confidence_tenths as int,
            ));
        }
        r
    }

    /// Human-readable recommendations for the operator, graded by the
    /// confidence score, plus warnings on suspicious findings.
    pub fn generate_recommendations(post: &PostWipeAnalysis, confidence_tenths: u32) -> (r: Vec<
        String,
    >)
        ensures
            r@.map_values(|s: String| s@) == recommendations_spec(*post, confidence_tenths as int),
            r@.len() >= 2,
    {
        let mut r: Vec<String> = Vec::new();
        if confidence_tenths >= 999 {
            r.push("Drive is certified completely sanitized with highest confidence".to_owned());
            r.push("Safe for disposal, resale, or redeployment".to_owned());
        } else if confidence_tenths >= 950 {
            r.push("Drive sanitization successful with high confidence".to_owned());
            r.push("Suitable for most compliance requirements".to_owned());
        } else if confidence_tenths >= 900 {
            r.push("Drive sanitization completed but with reduced confidence".to_owned());
            r.push("Consider physical destruction for highly sensitive data".to_owned());
        } else {
            r.push("Sanitization confidence below acceptable threshold".to_owned());
            r.push("Recommend physical destruction or additional wipe passes".to_owned());
        }
        if post.sector_sampling.suspicious_sectors > 0 {
            r.push("Suspicious sectors detected - may require targeted overwrite".to_owned());
        }
        if post.entropy_milli < 7500 {
            r.push(
                "Entropy below optimal level - consider additional random overwrite".to_owned(),
            );
        }
        proof {
            assert(r@.map_values(|s: String| s@) =~= recommendations_spec(
                *post,
                confidence_tenths as int,
            ));
        }
        r
    }

    /// Assemble the verification report: confidence, compliance list and
    /// recommendations all follow their specifications; the timestamp
    /// comes from the wall clock.
    pub fn generate_verification_report(
        device_path: &str,
        pre_wipe: PreWipeTestResults,
        post_wipe: PostWipeAnalysis,
    ) -> (r: VerificationReport)
        ensures
            r.confidence_tenths as int == confidence_spec(pre_wipe, r.post_wipe_analysis),
            r.pre_wipe_tests == pre_wipe,
            r.post_wipe_analysis == post_wipe,
            r.compliance_standards@.map_values(|s: String| s@) == compliance_spec(
                r.post_wipe_analysis,
                r.confidence_tenths as int,
            ),
            r.recommendations@.map_values(|s: String| s@) == recommendations_spec(
                r.post_wipe_analysis,
                r.confidence_tenths as int,
            ),
            r.recommendations@.len() >= 2,
            r.device_path@ == device_path@,
    {
        let confidence = Self::calculate_confidence_level(&pre_wipe, &post_wipe);
        let compliance = Self::determine_compliance(&post_wipe, confidence);
        let recommendations = Self::generate_recommendations(&post_wipe, confidence);
        VerificationReport {
            device_path: device_path.to_owned(),
            timestamp_rfc3339: now_rfc3339(),
            pre_wipe_tests: pre_wipe,
            post_wipe_analysis: post_wipe,
            confidence_tenths: confidence,
            verification_method: "Hybrid Mathematical Verification v2.0".to_owned(),
            compliance_standards: compliance,
            recommendations,
        }
    }
}

} // verus!
