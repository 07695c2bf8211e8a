//! SMART health: parsing of monitoring-tool output into a structured
//! health record, the health classification policy, temperature
//! monitoring thresholds, and failure prediction.

use vstd::prelude::*;
use vstd::string::StrSliceExecFns;
use crate::bytes::{
    all_digits, contains_seq, contains_sub, digits_value, find_byte, find_from, find_sub_from,
    is_digit, lemma_find_from, lemma_find_sub_from, lines_spec, lower_seq, opt_int, parse_u64,
    parse_u64_spec, pieces_view, split_lines, split_whitespace, subvec, tokens_spec, trim_spaces,
    trim_spec,
};
use crate::{DriveError, DriveResult, HealthStatus};

verus! {

/// One parsed SMART attribute row.
#[derive(Debug, Clone)]
pub struct SMARTAttribute {
    pub id: u8,
    pub name: String,
    pub current: u8,
    pub worst: u8,
    pub threshold: u8,
    pub raw_value: u64,
    pub flags: String,
    pub failing_now: bool,
    pub failed_before: bool,
}

/// The structured health record built from tool output.
#[derive(Debug, Clone)]
pub struct SMARTHealth {
    pub overall_health: HealthStatus,
    pub temperature_celsius: Option<u32>,
    pub power_on_hours: Option<u64>,
    pub power_cycle_count: Option<u64>,
    pub reallocated_sectors: Option<u64>,
    pub pending_sectors: Option<u64>,
    pub uncorrectable_errors: Option<u64>,
    pub wear_level: Option<u8>,
    pub bad_block_count: Option<u64>,
    pub erase_fail_count: Option<u64>,
    pub program_fail_count: Option<u64>,
    pub critical_warning: Option<u8>,
    pub available_spare: Option<u8>,
    pub media_errors: Option<u64>,
    /// Every accepted attribute row, in table order. Rows repeating an
    /// attribute name are kept as separate entries rather than replacing
    /// the earlier one: the names are display text outside the verified
    /// domain, so a name-keyed replacement could not be specified.
    pub attributes: Vec<SMARTAttribute>,
}

/// Temperature thresholds for one drive during an operation.
#[derive(Debug, Clone, Copy, PartialEq, Eq, Structural)]
pub struct TemperatureMonitor {
    pub current_celsius: u32,
    pub max_operating: u32,
    pub critical_threshold: u32,
    pub warning_threshold: u32,
}

/// SMART self-test kinds.
#[derive(Debug, Clone, Copy, PartialEq, Eq, Structural)]
pub enum SelfTestType {
    Short,
    Extended,
    Conveyance,
}

/// Outcome of the most recent self-test.
#[derive(Debug, Clone)]
pub enum SelfTestResult {
    Passed,
    Failed(String),
    InProgress(u8),
    NotRun,
}

/// Failure-risk grading.
#[derive(Debug, Clone, Copy, PartialEq, Eq, Structural)]
pub enum RiskLevel {
    NoRisk,
    Low,
    Medium,
    High,
    Critical,
}

/// Failure prediction derived from the health record.
#[derive(Debug, Clone)]
pub struct FailurePrediction {
    pub risk_level: RiskLevel,
    pub risk_score: u8,
    pub estimated_days_remaining: Option<u32>,
    pub failure_indicators: Vec<String>,
    pub recommendation: String,
}

/// The SMART reader and policy engine. Command invocation lives outside;
/// everything from raw tool text onward is verified.
pub struct SMARTMonitor;

/// The health classification cascade over the numeric fields: critical
/// reallocation, pending or uncorrectable sectors, SSD wear, NVMe spare,
/// critical warnings, then temperature.
pub open spec fn health_status_spec(
    reallocated: Option<u64>,
    pending: Option<u64>,
    uncorrectable: Option<u64>,
    wear: Option<u8>,
    spare: Option<u8>,
    warning: Option<u8>,
    temp: Option<u32>,
) -> HealthStatus {
    if reallocated matches Some(x) && x > 100 {
        HealthStatus::Critical
    } else if reallocated matches Some(x) && x > 10 {
        HealthStatus::Warning
    } else if pending matches Some(x) && x > 0 {
        HealthStatus::Warning
    } else if uncorrectable matches Some(x) && x > 0 {
        HealthStatus::Critical
    } else if wear matches Some(x) && x > 90 {
        HealthStatus::Critical
    } else if wear matches Some(x) && x > 80 {
        HealthStatus::Warning
    } else if spare matches Some(x) && x < 10 {
        HealthStatus::Critical
    } else if spare matches Some(x) && x < 20 {
        HealthStatus::Warning
    } else if warning matches Some(x) && x > 0 {
        HealthStatus::Warning
    } else if temp matches Some(x) && x > 70 {
        HealthStatus::Critical
    } else if temp matches Some(x) && x > 60 {
        HealthStatus::Warning
    } else {
        HealthStatus::Good
    }
}

/// The additive risk score of the failure prediction.
pub open spec fn risk_score_spec(
    reallocated: Option<u64>,
    pending: Option<u64>,
    uncorrectable: Option<u64>,
    wear: Option<u8>,
    spare: Option<u8>,
) -> int {
    (if reallocated matches Some(x) && x > 100 {
        40int
    } else if reallocated matches Some(x) && x > 10 {
        20int
    } else {
        0int
    }) + (if pending matches Some(x) && x > 0 {
        30int
    } else {
        0int
    }) + (if uncorrectable matches Some(x) && x > 0 {
        50int
    } else {
        0int
    }) + (if wear matches Some(x) && x > 90 {
        60int
    } else if wear matches Some(x) && x > 80 {
        30int
    } else {
        0int
    }) + (if spare matches Some(x) && x < 10 {
        50int
    } else if spare matches Some(x) && x < 20 {
        25int
    } else {
        0int
    })
}

/// Risk grading from the score.
pub open spec fn risk_level_spec(score: int) -> RiskLevel {
    if score >= 80 {
        RiskLevel::Critical
    } else if score >= 50 {
        RiskLevel::High
    } else if score >= 30 {
        RiskLevel::Medium
    } else if score > 0 {
        RiskLevel::Low
    } else {
        RiskLevel::NoRisk
    }
}

/// The indicator messages, one per triggered score contribution.
pub open spec fn failure_indicators_spec(
    reallocated: Option<u64>,
    pending: Option<u64>,
    uncorrectable: Option<u64>,
    wear: Option<u8>,
    spare: Option<u8>,
) -> Seq<Seq<char>> {
    (if reallocated matches Some(x) && x > 100 {
        seq!["High reallocated sector count"@]
    } else if reallocated matches Some(x) && x > 10 {
        seq!["Increasing reallocated sectors"@]
    } else {
        Seq::<Seq<char>>::empty()
    }) + (if pending matches Some(x) && x > 0 {
        seq!["Pending sectors detected"@]
    } else {
        Seq::<Seq<char>>::empty()
    }) + (if uncorrectable matches Some(x) && x > 0 {
        seq!["Uncorrectable errors"@]
    } else {
        Seq::<Seq<char>>::empty()
    }) + (if wear matches Some(x) && x > 90 {
        seq!["SSD wear level critical"@]
    } else if wear matches Some(x) && x > 80 {
        seq!["SSD wear level high"@]
    } else {
        Seq::<Seq<char>>::empty()
    }) + (if spare matches Some(x) && x < 10 {
        seq!["Available spare critical"@]
    } else if spare matches Some(x) && x < 20 {
        seq!["Available spare low"@]
    } else {
        Seq::<Seq<char>>::empty()
    })
}

/// The operator guidance for a risk grading.
pub open spec fn recommendation_spec(level: RiskLevel) -> Seq<char> {
    match level {
        RiskLevel::NoRisk => "Drive is healthy. Continue normal operations."@,
        RiskLevel::Low => "Monitor drive health regularly. Consider backup planning."@,
        RiskLevel::Medium => "Backup important data. Plan for replacement within 6 months."@,
        RiskLevel::High => "Backup immediately. Replace drive as soon as possible."@,
        RiskLevel::Critical => "URGENT: Drive failure imminent. Do not use for critical data."@,
    }
}

/// Days-to-failure estimate from the score.
pub open spec fn remaining_days_spec(score: int) -> Option<u32> {
    if score <= 20 {
        None
    } else if score <= 40 {
        Some(365u32)
    } else if score <= 60 {
        Some(90u32)
    } else if score <= 80 {
        Some(30u32)
    } else if score <= 100 {
        Some(7u32)
    } else {
        None
    }
}

impl SMARTMonitor {
    /// Classify overall health from the record's numeric fields.
    pub fn determine_health_status(health: &SMARTHealth) -> (r: HealthStatus)
        ensures
            r == health_status_spec(
                health.reallocated_sectors,
                health.pending_sectors,
                health.uncorrectable_errors,
                health.wear_level,
                health.available_spare,
                health.critical_warning,
                health.temperature_celsius,
            ),
    {
        if let Some(x) = health.reallocated_sectors {
            if x > 100 {
                return HealthStatus::Critical;
            }
            if x > 10 {
                return HealthStatus::Warning;
            }
        }
        if let Some(x) = health.pending_sectors {
            if x > 0 {
                return HealthStatus::Warning;
            }
        }
        if let Some(x) = health.uncorrectable_errors {
            if x > 0 {
                return HealthStatus::Critical;
            }
        }
        if let Some(x) = health.wear_level {
            if x > 90 {
                return HealthStatus::Critical;
            }
            if x > 80 {
                return HealthStatus::Warning;
            }
        }
        if let Some(x) = health.available_spare {
            if x < 10 {
                return HealthStatus::Critical;
            }
            if x < 20 {
                return HealthStatus::Warning;
            }
        }
        if let Some(x) = health.critical_warning {
            if x > 0 {
                return HealthStatus::Warning;
            }
        }
        if let Some(x) = health.temperature_celsius {
            if x > 70 {
                return HealthStatus::Critical;
            }
            if x > 60 {
                return HealthStatus::Warning;
            }
        }
        HealthStatus::Good
    }

    /// Temperature thresholds: NVMe parts are rated hotter than SATA.
    pub fn monitor_temperature(device_path: &str, health: &SMARTHealth) -> (r:
        TemperatureMonitor)
        ensures
            r.current_celsius == (if health.temperature_celsius is Some {
                health.temperature_celsius->Some_0
            } else {
                0u32
            }),
            path_is_nvme(device_path@) ==> r.warning_threshold == 60 && r.critical_threshold
                == 70 && r.max_operating == 85,
            !path_is_nvme(device_path@) ==> r.warning_threshold == 50 && r.critical_threshold
                == 60 && r.max_operating == 70,
    {
        let current = match health.temperature_celsius {
            Some(t) => t,
            None => 0,
        };
        let bytes = device_path.as_bytes_vec();
        let nvme: Vec<u8> = vec![0x6e, 0x76, 0x6d, 0x65];
        proof {
            assert(nvme@ =~= seq![0x6eu8, 0x76u8, 0x6du8, 0x65u8]);
        }
        if contains_sub(&bytes, &nvme) {
            TemperatureMonitor {
                current_celsius: current,
                max_operating: 85,
                critical_threshold: 70,
                warning_threshold: 60,
            }
        } else {
            TemperatureMonitor {
                current_celsius: current,
                max_operating: 70,
                critical_threshold: 60,
                warning_threshold: 50,
            }
        }
    }

    /// A drive is safe to operate on unless it failed outright, runs
    /// above 65 degrees, or reallocated more than 1000 sectors.
    pub fn check_safe_to_operate(health: &SMARTHealth) -> (r: bool)
        ensures
            r == (health.overall_health != HealthStatus::Failed && !(
            health.temperature_celsius matches Some(t) && t > 65) && !(
            health.reallocated_sectors matches Some(x) && x > 1000)),
    {
        if let HealthStatus::Failed = health.overall_health {
            return false;
        }
        if let Some(t) = health.temperature_celsius {
            if t > 65 {
                return false;
            }
        }
        if let Some(x) = health.reallocated_sectors {
            if x > 1000 {
                return false;
            }
        }
        true
    }

    /// Failure prediction: score the critical indicators, grade the
    /// score, and estimate a time to failure.
    pub fn predict_failure(health: &SMARTHealth) -> (r: FailurePrediction)
        ensures
            ({
                let score = risk_score_spec(
                    health.reallocated_sectors,
                    health.pending_sectors,
                    health.uncorrectable_errors,
                    health.wear_level,
                    health.available_spare,
                );
                &&& r.risk_score as int == (if score > 100 {
                    100int
                } else {
                    score
                })
                &&& r.risk_level == risk_level_spec(score)
                &&& r.estimated_days_remaining == remaining_days_spec(score)
                &&& r.failure_indicators@.map_values(|s: String| s@) == failure_indicators_spec(
                    health.reallocated_sectors,
                    health.pending_sectors,
                    health.uncorrectable_errors,
                    health.wear_level,
                    health.available_spare,
                )
                &&& r.recommendation@ == recommendation_spec(risk_level_spec(score))
            }),
    {
        let mut score: u32 = 0;
        let mut reasons: Vec<String> = Vec::new();
        if let Some(x) = health.reallocated_sectors {
            if x > 100 {
                score += 40;
                reasons.push("High reallocated sector count".to_owned());
            } else if x > 10 {
                score += 20;
                reasons.push("Increasing reallocated sectors".to_owned());
            }
        }
        if let Some(x) = health.pending_sectors {
            if x > 0 {
                score += 30;
                reasons.push("Pending sectors detected".to_owned());
            }
        }
        if let Some(x) = health.uncorrectable_errors {
            if x > 0 {
                score += 50;
                reasons.push("Uncorrectable errors".to_owned());
            }
        }
        if let Some(x) = health.wear_level {
            if x > 90 {
                score += 60;
                reasons.push("SSD wear level critical".to_owned());
            } else if x > 80 {
                score += 30;
                reasons.push("SSD wear level high".to_owned());
            }
        }
        if let Some(x) = health.available_spare {
            if x < 10 {
                score += 50;
                reasons.push("Available spare critical".to_owned());
            } else if x < 20 {
                score += 25;
                reasons.push("Available spare low".to_owned());
            }
        }
        proof {
            assert(reasons@.map_values(|t: String| t@) =~= failure_indicators_spec(
                health.reallocated_sectors,
                health.pending_sectors,
                health.uncorrectable_errors,
                health.wear_level,
                health.available_spare,
            ));
        }
        let level = Self::grade_risk(score);
        let days = Self::estimate_remaining_days(score);
        let capped: u8 = if score > 100 {
            100
        } else {
            score as u8
        };
        FailurePrediction {
            risk_level: level,
            risk_score: capped,
            estimated_days_remaining: days,
            failure_indicators: reasons,
            recommendation: Self::get_recommendation(level),
        }
    }

    /// Grade a risk score.
    fn grade_risk(score: u32) -> (r: RiskLevel)
        ensures
            r == risk_level_spec(score as int),
    {
        if score >= 80 {
            RiskLevel::Critical
        } else if score >= 50 {
            RiskLevel::High
        } else if score >= 30 {
            RiskLevel::Medium
        } else if score > 0 {
            RiskLevel::Low
        } else {
            RiskLevel::NoRisk
        }
    }

    /// Days-to-failure estimate for a risk score.
    pub fn estimate_remaining_days(score: u32) -> (r: Option<u32>)
        ensures
            r == remaining_days_spec(score as int),
    {
        if score <= 20 {
            None
        } else if score <= 40 {
            Some(365)
        } else if score <= 60 {
            Some(90)
        } else if score <= 80 {
            Some(30)
        } else if score <= 100 {
            Some(7)
        } else {
            None
        }
    }

    /// Operator guidance for a risk grading.
    pub fn get_recommendation(level: RiskLevel) -> (r: String)
        ensures
            r@ == recommendation_spec(level),
    {
        match level {
            RiskLevel::NoRisk => "Drive is healthy. Continue normal operations.".to_owned(),
            RiskLevel::Low => "Monitor drive health regularly. Consider backup planning."
                .to_owned(),
            RiskLevel::Medium => "Backup important data. Plan for replacement within 6 months."
                .to_owned(),
            RiskLevel::High => "Backup immediately. Replace drive as soon as possible."
                .to_owned(),
            RiskLevel::Critical => "URGENT: Drive failure imminent. Do not use for critical data."
                .to_owned(),
        }
    }

    /// The `smartctl -t` argument for a self-test kind.
    pub fn self_test_arg(test_type: SelfTestType) -> (r: &'static str)
        ensures
            test_type == SelfTestType::Short ==> r@ == "short"@,
            test_type == SelfTestType::Extended ==> r@ == "long"@,
            test_type == SelfTestType::Conveyance ==> r@ == "conveyance"@,
    {
        match test_type {
            SelfTestType::Short => "short",
            SelfTestType::Extended => "long",
            SelfTestType::Conveyance => "conveyance",
        }
    }

    /// A raw-value cell: plain decimal, `0x` hex, or a decimal prefix
    /// before a space (as in `100 (Min/Max 24/45)`); anything else is 0.
    pub fn parse_raw_value(raw: &Vec<u8>) -> (r: u64)
        ensures
            r as int == raw_value_spec(raw@),
    {
        if let Some(v) = parse_u64(raw) {
            return v;
        }
        if raw.len() >= 2 && raw[0] == 0x30 && (raw[1] == 0x78 || raw[1] == 0x58) {
            let rl = raw.len();
            let rest = subvec(raw, 2, rl);
            if let Some(v) = parse_hex_u64(&rest) {
                return v;
            }
        }
        match find_byte(raw, 0x20) {
            Some(sp) => {
                proof {
                    lemma_find_from(raw@, 0x20, 0);
                    assert(sp as int == find_from(raw@, 0x20, 0));
                }
                let head = subvec(raw, 0, sp);
                if let Some(v) = parse_u64(&head) {
                    return v;
                }
                0
            },
            None => {
                proof {
                    lemma_find_from(raw@, 0x20, 0);
                    assert(find_from(raw@, 0x20, 0) == raw@.len());
                }
                0
            },
        }
    }

    /// The rightmost whitespace-separated token of the line that parses
    /// as a decimal number once commas are removed.
    pub fn extract_number(line: &Vec<u8>) -> (r: Option<u64>)
        ensures
            opt_int(r) == extract_number_spec(line@),
    {
        let parts = split_whitespace(line);
        let ghost toks = tokens_spec(line@);
        let mut k: usize = parts.len();
        while k > 0
            invariant
                k <= parts@.len(),
                toks == tokens_spec(line@),
                pieces_view(parts@) == toks,
                rightmost_number(toks, toks.len() as int) == rightmost_number(toks, k as int),
            decreases k,
        {
            k -= 1;
            proof {
                assert(parts@[k as int]@ == toks[k as int]);
            }
            let cleaned = strip_commas(&parts[k]);
            let parsed = parse_u64(&cleaned);
            if let Some(v) = parsed {
                return Some(v);
            }
        }
        None
    }

    /// The hexadecimal value following the first `0x` on the line.
    pub fn extract_hex_value(line: &Vec<u8>) -> (r: Option<u64>)
        ensures
            opt_int(r) == hex_from_line_spec(line@),
    {
        let marker: Vec<u8> = vec![0x30, 0x78];
        proof {
            assert(marker@ =~= seq![0x30u8, 0x78u8]);
            lemma_find_sub_from(line@, seq![0x30u8, 0x78u8], 0);
        }
        match crate::bytes::find_sub(line, &marker) {
            Some(pos) => {
                proof {
                    assert(pos as int == find_sub_from(line@, seq![0x30u8, 0x78u8], 0));
                }
                let ll = line.len();
                let rest = subvec(line, pos + 2, ll);
                let mut end: usize = 0;
                while end < rest.len()
                    invariant
                        0 <= end <= rest@.len(),
                        hex_end(rest@, 0) == hex_end(rest@, end as int),
                    ensures
                        0 <= end <= rest@.len(),
                        hex_end(rest@, 0) == end,
                    decreases rest@.len() - end,
                {
                    if !is_hex_digit_byte(rest[end]) {
                        break;
                    }
                    end += 1;
                }
                let digits = subvec(&rest, 0, end);
                parse_hex_u64(&digits)
            },
            None => {
                proof {
                    assert(find_sub_from(line@, seq![0x30u8, 0x78u8], 0) > line@.len()) by {
                        if find_sub_from(line@, seq![0x30u8, 0x78u8], 0) <= line@.len() {
                            assert(contains_seq(line@, seq![0x30u8, 0x78u8]));
                            assert(contains_seq(line@, marker@));
                        }
                    }
                }
                None
            },
        }
    }

    /// The number directly before the first `%` on the line.
    pub fn extract_percentage(line: &Vec<u8>) -> (r: Option<u64>)
        ensures
            opt_int(r) == percentage_spec(line@),
    {
        proof {
            lemma_find_from(line@, 0x25, 0);
        }
        match find_byte(line, 0x25) {
            Some(pos) => {
                proof {
                    assert(pos as int == find_from(line@, 0x25, 0));
                }
                let mut start: usize = pos;
                while start > 0
                    invariant
                        0 <= start <= pos <= line@.len(),
                        digit_run_start(line@, pos as int) == digit_run_start(
                            line@,
                            start as int,
                        ),
                    ensures
                        0 <= start <= pos <= line@.len(),
                        digit_run_start(line@, pos as int) == start,
                    decreases start,
                {
                    let b = line[start - 1];
                    if !(0x30 <= b && b <= 0x39) {
                        break;
                    }
                    start -= 1;
                }
                let digits = subvec(line, start, pos);
                parse_u64(&digits)
            },
            None => {
                proof {
                    assert(find_from(line@, 0x25, 0) == line@.len());
                }
                None
            },
        }
    }

    /// Temperature written as `<n> Celsius` or `<n> C` somewhere on the
    /// line.
    pub fn extract_temperature(line: &Vec<u8>) -> (r: Option<u32>)
        ensures
            opt_int32(r) == extract_temperature_spec(line@),
    {
        let parts = split_whitespace(line);
        let ghost toks = tokens_spec(line@);
        if parts.len() < 2 {
            return None;
        }
        let mut i: usize = 0;
        let n = parts.len() - 1;
        while i < n
            invariant
                0 <= i <= n,
                n == parts@.len() - 1,
                toks == tokens_spec(line@),
                pieces_view(parts@) == toks,
                temp_scan(toks, 0) == temp_scan(toks, i as int),
            decreases n - i,
        {
            proof {
                assert(parts@[i as int]@ == toks[i as int]);
                assert(parts@[i + 1]@ == toks[i + 1]);
            }
            let parsed = parse_u64(&parts[i]);
            if let Some(v) = parsed {
                if v <= u32::MAX as u64 {
                    let next = crate::bytes::to_lower(&parts[i + 1]);
                    let celsius: Vec<u8> = vec![0x63, 0x65, 0x6c, 0x73, 0x69, 0x75, 0x73];
                    let c_only: Vec<u8> = vec![0x63];
                    proof {
                        assert(celsius@ =~= celsius_marker());
                        assert(c_only@ =~= seq![0x63u8]);
                        assert(next@ == lower_seq(toks[i as int + 1]));
                    }
                    if contains_sub(&next, &celsius) || crate::bytes::eq_vec(&next, &c_only) {
                        proof {
                            assert(temp_scan(toks, i as int) == parse_u64_spec(toks[i as int]));
                        }
                        return Some(v as u32);
                    }
                }
            }
            i += 1;
        }
        None
    }

    /// The number following the first colon, commas ignored.
    pub fn extract_number_from_line(line: &Vec<u8>) -> (r: Option<u64>)
        ensures
            opt_int(r) == number_from_line_spec(line@),
    {
        proof {
            lemma_find_from(line@, 0x3a, 0);
        }
        match find_byte(line, 0x3a) {
            Some(pos) => {
                proof {
                    assert(pos as int == find_from(line@, 0x3a, 0));
                }
                let ll = line.len();
                let after = subvec(line, pos + 1, ll);
                let trimmed = trim_spaces(&after);
                let mut end: usize = 0;
                while end < trimmed.len()
                    invariant
                        0 <= end <= trimmed@.len(),
                        numlike_end(trimmed@, 0) == numlike_end(trimmed@, end as int),
                    ensures
                        0 <= end <= trimmed@.len(),
                        numlike_end(trimmed@, 0) == end,
                    decreases trimmed@.len() - end,
                {
                    let b = trimmed[end];
                    if !((0x30 <= b && b <= 0x39) || b == 0x2c) {
                        break;
                    }
                    end += 1;
                }
                let head = subvec(&trimmed, 0, end);
                let cleaned = strip_commas(&head);
                parse_u64(&cleaned)
            },
            None => {
                proof {
                    assert(find_from(line@, 0x3a, 0) == line@.len());
                }
                None
            },
        }
    }

    /// The percentage following the first colon.
    pub fn extract_percentage_from_line(line: &Vec<u8>) -> (r: Option<u64>)
        ensures
            opt_int(r) == percentage_from_line_spec(line@),
    {
        proof {
            lemma_find_from(line@, 0x3a, 0);
        }
        match find_byte(line, 0x3a) {
            Some(pos) => {
                proof {
                    assert(pos as int == find_from(line@, 0x3a, 0));
                }
                let ll = line.len();
                let after = subvec(line, pos + 1, ll);
                Self::extract_percentage(&after)
            },
            None => {
                proof {
                    assert(find_from(line@, 0x3a, 0) == line@.len());
                }
                None
            },
        }
    }

    /// Outcome of the most recent self-test from `smartctl -l selftest`
    /// output: completed cleanly, a read failure, still in progress, or
    /// never run.
    pub fn check_self_test_results(output: &Vec<u8>) -> (r: SelfTestResult)
        ensures
            contains_seq(output@, completed_ok_marker()) ==> r is Passed,
            (!contains_seq(output@, completed_ok_marker()) && contains_seq(
                output@,
                read_failure_marker(),
            )) ==> r is Failed,
            (!contains_seq(output@, completed_ok_marker()) && !contains_seq(
                output@,
                read_failure_marker(),
            ) && contains_seq(output@, in_progress_marker())) ==> (r matches
                SelfTestResult::InProgress(p) && p as int == (
            match percentage_spec(output@) {
                Some(x) => if 0 <= x <= 100 {
                    x
                } else {
                    0
                },
                None => 0,
            })),
            (!contains_seq(output@, completed_ok_marker()) && !contains_seq(
                output@,
                read_failure_marker(),
            ) && !contains_seq(output@, in_progress_marker())) ==> r is NotRun,
    {
        let ok: Vec<u8> = "Completed without error".as_bytes_vec();
        let fail: Vec<u8> = "Completed: read failure".as_bytes_vec();
        let progress: Vec<u8> = "In progress".as_bytes_vec();
        proof {
            reveal_strlit("Completed without error");
            reveal_strlit("Completed: read failure");
            reveal_strlit("In progress");
            assert(ok@ =~= completed_ok_marker());
            assert(fail@ =~= read_failure_marker());
            assert(progress@ =~= in_progress_marker());
        }
        if contains_sub(output, &ok) {
            return SelfTestResult::Passed;
        }
        if contains_sub(output, &fail) {
            return SelfTestResult::Failed("Read failure detected".to_owned());
        }
        if contains_sub(output, &progress) {
            let pct = match Self::extract_percentage(output) {
                Some(p) => if p <= 100 {
                    p as u8
                } else {
                    0
                },
                None => 0,
            };
            return SelfTestResult::InProgress(pct);
        }
        SelfTestResult::NotRun
    }
}


/// The numeric fields a reader fills, detached from the display strings.
pub struct SmartFields {
    pub temperature_celsius: Option<u32>,
    pub power_on_hours: Option<u64>,
    pub power_cycle_count: Option<u64>,
    pub reallocated_sectors: Option<u64>,
    pub pending_sectors: Option<u64>,
    pub uncorrectable_errors: Option<u64>,
    pub wear_level: Option<u8>,
    pub bad_block_count: Option<u64>,
    pub erase_fail_count: Option<u64>,
    pub program_fail_count: Option<u64>,
    pub critical_warning: Option<u8>,
    pub available_spare: Option<u8>,
    pub media_errors: Option<u64>,
}

/// No field filled yet.
pub open spec fn empty_fields() -> SmartFields {
    SmartFields {
        temperature_celsius: None,
        power_on_hours: None,
        power_cycle_count: None,
        reallocated_sectors: None,
        pending_sectors: None,
        uncorrectable_errors: None,
        wear_level: None,
        bad_block_count: None,
        erase_fail_count: None,
        program_fail_count: None,
        critical_warning: None,
        available_spare: None,
        media_errors: None,
    }
}

/// The numeric fields of a health record.
pub open spec fn fields_of(h: SMARTHealth) -> SmartFields {
    SmartFields {
        temperature_celsius: h.temperature_celsius,
        power_on_hours: h.power_on_hours,
        power_cycle_count: h.power_cycle_count,
        reallocated_sectors: h.reallocated_sectors,
        pending_sectors: h.pending_sectors,
        uncorrectable_errors: h.uncorrectable_errors,
        wear_level: h.wear_level,
        bad_block_count: h.bad_block_count,
        erase_fail_count: h.erase_fail_count,
        program_fail_count: h.program_fail_count,
        critical_warning: h.critical_warning,
        available_spare: h.available_spare,
        media_errors: h.media_errors,
    }
}

/// The attribute-table header of ATA tool output.
pub open spec fn ata_header() -> Seq<u8> {
    vstd::utf8::encode_utf8("ID# ATTRIBUTE_NAME"@)
}

/// A table row the ATA reader accepts: at least ten columns and a
/// byte-sized numeric id.
pub open spec fn ata_row_accepted(line: Seq<u8>) -> bool {
    let toks = tokens_spec(line);
    &&& toks.len() >= 10
    &&& parse_u64_spec(toks[0]) is Some
    &&& parse_u64_spec(toks[0])->Some_0 <= 255
}

/// How one accepted table row updates the numeric fields, by the
/// attribute name in its second column.
pub open spec fn ata_row_update(st: SmartFields, line: Seq<u8>) -> SmartFields {
    let toks = tokens_spec(line);
    let name = toks[1];
    let raw = raw_value_spec(toks[9]);
    let current = small_u8_spec(toks[3]);
    if name == vstd::utf8::encode_utf8("Temperature_Celsius"@) || name == vstd::utf8::encode_utf8(
        "Airflow_Temperature_Cel"@,
    ) {
        if raw <= u32::MAX {
            SmartFields { temperature_celsius: Some(raw as u32), ..st }
        } else {
            st
        }
    } else if name == vstd::utf8::encode_utf8("Power_On_Hours"@) {
        SmartFields { power_on_hours: Some(raw as u64), ..st }
    } else if name == vstd::utf8::encode_utf8("Power_Cycle_Count"@) {
        SmartFields { power_cycle_count: Some(raw as u64), ..st }
    } else if name == vstd::utf8::encode_utf8("Reallocated_Sector_Ct"@) {
        SmartFields { reallocated_sectors: Some(raw as u64), ..st }
    } else if name == vstd::utf8::encode_utf8("Current_Pending_Sector"@) {
        SmartFields { pending_sectors: Some(raw as u64), ..st }
    } else if name == vstd::utf8::encode_utf8("Offline_Uncorrectable"@) || name
        == vstd::utf8::encode_utf8("Uncorrectable_Error_Cnt"@) {
        SmartFields { uncorrectable_errors: Some(raw as u64), ..st }
    } else if name == vstd::utf8::encode_utf8("Wear_Leveling_Count"@) || name
        == vstd::utf8::encode_utf8("SSD_Life_Left"@) {
        if current <= 100 {
            SmartFields { wear_level: Some((100 - current) as u8), ..st }
        } else {
            st
        }
    } else if name == vstd::utf8::encode_utf8("Bad_Block_Count"@) || name
        == vstd::utf8::encode_utf8("Runtime_Bad_Block"@) {
        SmartFields { bad_block_count: Some(raw as u64), ..st }
    } else if name == vstd::utf8::encode_utf8("Erase_Fail_Count"@) {
        SmartFields { erase_fail_count: Some(raw as u64), ..st }
    } else if name == vstd::utf8::encode_utf8("Program_Fail_Count"@) || name
        == vstd::utf8::encode_utf8("Program_Fail_Cnt_Total"@) {
        SmartFields { program_fail_count: Some(raw as u64), ..st }
    } else {
        st
    }
}

/// One line of ATA output: a header line arms the table, rows after the
/// header update the fields and the accepted-row count.
pub open spec fn ata_line_step(st: (SmartFields, bool, int), line: Seq<u8>) -> (
    SmartFields,
    bool,
    int,
) {
    if contains_seq(line, ata_header()) {
        (st.0, true, st.2)
    } else if !st.1 {
        st
    } else if ata_row_accepted(line) {
        (ata_row_update(st.0, line), true, st.2 + 1)
    } else {
        st
    }
}

/// The ATA reader's state after the first `k` lines.
pub open spec fn ata_fold(lines: Seq<Seq<u8>>, k: int) -> (SmartFields, bool, int)
    decreases k,
{
    if k <= 0 {
        (empty_fields(), false, 0)
    } else {
        ata_line_step(ata_fold(lines, k - 1), lines[k - 1])
    }
}

/// How one lower-cased `nvme smart-log` line updates the fields.
pub open spec fn nvme_line_step(st: SmartFields, raw_line: Seq<u8>) -> SmartFields {
    let line = lower_seq(raw_line);
    if contains_seq(line, vstd::utf8::encode_utf8("critical_warning"@)) {
        if hex_from_line_spec(line) is Some && hex_from_line_spec(line)->Some_0 <= 255 {
            SmartFields { critical_warning: Some(hex_from_line_spec(line)->Some_0 as u8), ..st }
        } else {
            st
        }
    } else if contains_seq(line, vstd::utf8::encode_utf8("temperature"@)) && !contains_seq(
        line,
        vstd::utf8::encode_utf8("sensor"@),
    ) {
        if extract_number_spec(line) is Some {
            let v = extract_number_spec(line)->Some_0;
            let celsius = if v > 273 {
                v - 273
            } else {
                v
            };
            if celsius <= u32::MAX {
                SmartFields { temperature_celsius: Some(celsius as u32), ..st }
            } else {
                st
            }
        } else {
            st
        }
    } else if contains_seq(line, vstd::utf8::encode_utf8("power_on_hours"@)) {
        if extract_number_spec(line) is Some {
            SmartFields { power_on_hours: Some(extract_number_spec(line)->Some_0 as u64), ..st }
        } else {
            st
        }
    } else if contains_seq(line, vstd::utf8::encode_utf8("power_cycles"@)) {
        if extract_number_spec(line) is Some {
            SmartFields { power_cycle_count: Some(extract_number_spec(line)->Some_0 as u64), ..st }
        } else {
            st
        }
    } else if contains_seq(line, vstd::utf8::encode_utf8("media_errors"@)) {
        if extract_number_spec(line) is Some {
            SmartFields { media_errors: Some(extract_number_spec(line)->Some_0 as u64), ..st }
        } else {
            st
        }
    } else if contains_seq(line, vstd::utf8::encode_utf8("percentage_used"@)) {
        if extract_number_spec(line) is Some && extract_number_spec(line)->Some_0 <= 255 {
            SmartFields { wear_level: Some(extract_number_spec(line)->Some_0 as u8), ..st }
        } else {
            st
        }
    } else if contains_seq(line, vstd::utf8::encode_utf8("available_spare"@)) && !contains_seq(
        line,
        vstd::utf8::encode_utf8("threshold"@),
    ) {
        if percentage_spec(line) is Some && percentage_spec(line)->Some_0 <= 255 {
            SmartFields { available_spare: Some(percentage_spec(line)->Some_0 as u8), ..st }
        } else {
            st
        }
    } else {
        st
    }
}

/// The `nvme smart-log` reader's fields after the first `k` lines.
pub open spec fn nvme_fold(lines: Seq<Seq<u8>>, k: int) -> SmartFields
    decreases k,
{
    if k <= 0 {
        empty_fields()
    } else {
        nvme_line_step(nvme_fold(lines, k - 1), lines[k - 1])
    }
}

/// How one `smartctl` NVMe line updates the fields.
pub open spec fn nvme_sc_line_step(st: SmartFields, line: Seq<u8>) -> SmartFields {
    if contains_seq(line, vstd::utf8::encode_utf8("Temperature:"@)) {
        if extract_temperature_spec(line) is Some {
            SmartFields {
                temperature_celsius: Some(extract_temperature_spec(line)->Some_0 as u32),
                ..st
            }
        } else {
            st
        }
    } else if contains_seq(line, vstd::utf8::encode_utf8("Power On Hours:"@)) {
        if number_from_line_spec(line) is Some {
            SmartFields { power_on_hours: Some(number_from_line_spec(line)->Some_0 as u64), ..st }
        } else {
            st
        }
    } else if contains_seq(line, vstd::utf8::encode_utf8("Power Cycles:"@)) {
        if number_from_line_spec(line) is Some {
            SmartFields {
                power_cycle_count: Some(number_from_line_spec(line)->Some_0 as u64),
                ..st
            }
        } else {
            st
        }
    } else if contains_seq(
        line,
        vstd::utf8::encode_utf8("Media and Data Integrity Errors:"@),
    ) {
        if number_from_line_spec(line) is Some {
            SmartFields { media_errors: Some(number_from_line_spec(line)->Some_0 as u64), ..st }
        } else {
            st
        }
    } else if contains_seq(line, vstd::utf8::encode_utf8("Percentage Used:"@)) {
        if percentage_from_line_spec(line) is Some && percentage_from_line_spec(line)->Some_0
            <= 255 {
            SmartFields { wear_level: Some(percentage_from_line_spec(line)->Some_0 as u8), ..st }
        } else {
            st
        }
    } else if contains_seq(line, vstd::utf8::encode_utf8("Available Spare:"@)) {
        if percentage_from_line_spec(line) is Some && percentage_from_line_spec(line)->Some_0
            <= 255 {
            SmartFields {
                available_spare: Some(percentage_from_line_spec(line)->Some_0 as u8),
                ..st
            }
        } else {
            st
        }
    } else {
        st
    }
}

/// The `smartctl` NVMe reader's fields after the first `k` lines.
pub open spec fn nvme_sc_fold(lines: Seq<Seq<u8>>, k: int) -> SmartFields
    decreases k,
{
    if k <= 0 {
        empty_fields()
    } else {
        nvme_sc_line_step(nvme_sc_fold(lines, k - 1), lines[k - 1])
    }
}

/// The health classification of a field record.
pub open spec fn fields_health(f: SmartFields) -> HealthStatus {
    health_status_spec(
        f.reallocated_sectors,
        f.pending_sectors,
        f.uncorrectable_errors,
        f.wear_level,
        f.available_spare,
        f.critical_warning,
        f.temperature_celsius,
    )
}

/// The first line whose lifetime-writes attribute row parses: its tenth
/// column in 512-byte sectors, scaled to bytes.
pub open spec fn lifetime_scan(lines: Seq<Seq<u8>>, k: int) -> Option<int>
    decreases lines.len() - k,
        when 0 <= k
{
    if k >= lines.len() {
        None
    } else {
        let line = lines[k];
        let toks = tokens_spec(line);
        if (contains_seq(line, vstd::utf8::encode_utf8("Total_LBAs_Written"@)) || contains_seq(
            line,
            vstd::utf8::encode_utf8("Lifetime_Writes"@),
        ) || contains_seq(line, vstd::utf8::encode_utf8("Host_Writes"@))) && toks.len() >= 10
            && parse_u64_spec(toks[9]) is Some && parse_u64_spec(toks[9])->Some_0 <= u64::MAX as int
            / 512 {
            Some(parse_u64_spec(toks[9])->Some_0 * 512)
        } else {
            lifetime_scan(lines, k + 1)
        }
    }
}

/// The `smartctl` completion marker.
pub open spec fn completed_ok_marker() -> Seq<u8> {
    vstd::utf8::encode_utf8("Completed without error"@)
}

/// The `smartctl` read-failure marker.
pub open spec fn read_failure_marker() -> Seq<u8> {
    vstd::utf8::encode_utf8("Completed: read failure"@)
}

/// The `smartctl` in-progress marker.
pub open spec fn in_progress_marker() -> Seq<u8> {
    vstd::utf8::encode_utf8("In progress"@)
}

/// The device path names an NVMe device.
pub open spec fn path_is_nvme(path: Seq<char>) -> bool {
    contains_seq(vstd::utf8::encode_utf8(path), seq![0x6eu8, 0x76u8, 0x6du8, 0x65u8])
}


/// All bytes of `s` are ASCII hexadecimal digits.
pub open spec fn all_hex(s: Seq<u8>) -> bool {
    forall|i: int| 0 <= i < s.len() ==> is_hex_digit(#[trigger] s[i])
}

/// What hexadecimal parsing yields: the value of a non-empty all-hex
/// string that fits in `u64`, nothing otherwise.
pub open spec fn parse_hex_spec(v: Seq<u8>) -> Option<int> {
    if v.len() > 0 && all_hex(v) && hex_value(v) <= u64::MAX {
        Some(hex_value(v))
    } else {
        None
    }
}

/// `s` with the commas removed, scanning from position `i`.
pub open spec fn strip_commas_from(s: Seq<u8>, i: int) -> Seq<u8>
    decreases s.len() - i,
        when 0 <= i <= s.len()
{
    if i >= s.len() {
        Seq::empty()
    } else if s[i] == 0x2c {
        strip_commas_from(s, i + 1)
    } else {
        seq![s[i]] + strip_commas_from(s, i + 1)
    }
}

/// `s` with the commas removed.
pub open spec fn strip_commas_spec(s: Seq<u8>) -> Seq<u8> {
    strip_commas_from(s, 0)
}

/// Start of the digit run ending just before position `p`.
pub open spec fn digit_run_start(s: Seq<u8>, p: int) -> int
    decreases p,
        when 0 <= p <= s.len()
{
    if p > 0 && is_digit(s[p - 1]) {
        digit_run_start(s, p - 1)
    } else {
        p
    }
}

/// End of the hex-digit run starting at position `i`.
pub open spec fn hex_end(s: Seq<u8>, i: int) -> int
    decreases s.len() - i,
        when 0 <= i <= s.len()
{
    if i < s.len() && is_hex_digit(s[i]) {
        hex_end(s, i + 1)
    } else {
        i
    }
}

/// End of the digit-or-comma run starting at position `i`.
pub open spec fn numlike_end(s: Seq<u8>, i: int) -> int
    decreases s.len() - i,
        when 0 <= i <= s.len()
{
    if i < s.len() && (is_digit(s[i]) || s[i] == 0x2c) {
        numlike_end(s, i + 1)
    } else {
        i
    }
}

/// A raw-value cell's worth: a plain decimal, a `0x`/`0X` hexadecimal,
/// a decimal prefix before the first space, or zero.
pub open spec fn raw_value_spec(v: Seq<u8>) -> int {
    if parse_u64_spec(v) is Some {
        parse_u64_spec(v)->Some_0
    } else if v.len() >= 2 && v[0] == 0x30 && (v[1] == 0x78 || v[1] == 0x58) && parse_hex_spec(
        v.subrange(2, v.len() as int),
    ) is Some {
        parse_hex_spec(v.subrange(2, v.len() as int))->Some_0
    } else {
        let sp = find_from(v, 0x20, 0);
        if sp < v.len() && parse_u64_spec(v.subrange(0, sp)) is Some {
            parse_u64_spec(v.subrange(0, sp))->Some_0
        } else {
            0
        }
    }
}

/// A token's worth as a byte-bounded attribute column: its decimal value
/// when it fits in a byte, zero otherwise.
pub open spec fn small_u8_spec(v: Seq<u8>) -> int {
    let p = parse_u64_spec(v);
    if p is Some && p->Some_0 <= 255 {
        p->Some_0
    } else {
        0
    }
}

/// The rightmost of the first `k` tokens that parses as a decimal number
/// once commas are removed.
pub open spec fn rightmost_number(toks: Seq<Seq<u8>>, k: int) -> Option<int>
    decreases k,
{
    if k <= 0 {
        None
    } else if parse_u64_spec(strip_commas_spec(toks[k - 1])) is Some {
        parse_u64_spec(strip_commas_spec(toks[k - 1]))
    } else {
        rightmost_number(toks, k - 1)
    }
}

/// What [`SMARTMonitor::extract_number`] returns.
pub open spec fn extract_number_spec(line: Seq<u8>) -> Option<int> {
    rightmost_number(tokens_spec(line), tokens_spec(line).len() as int)
}

/// What [`SMARTMonitor::extract_hex_value`] returns: the hex run after
/// the first `0x` marker.
pub open spec fn hex_from_line_spec(line: Seq<u8>) -> Option<int> {
    let m = find_sub_from(line, seq![0x30u8, 0x78u8], 0);
    if m > line.len() {
        None
    } else {
        let rest = line.subrange(m + 2, line.len() as int);
        parse_hex_spec(rest.subrange(0, hex_end(rest, 0)))
    }
}

/// What [`SMARTMonitor::extract_percentage`] returns: the digit run
/// directly before the first `%`.
pub open spec fn percentage_spec(line: Seq<u8>) -> Option<int> {
    let p = find_from(line, 0x25, 0);
    if p >= line.len() {
        None
    } else {
        parse_u64_spec(line.subrange(digit_run_start(line, p), p))
    }
}

/// What [`SMARTMonitor::extract_percentage_from_line`] returns: the
/// percentage in the text after the first colon.
pub open spec fn percentage_from_line_spec(line: Seq<u8>) -> Option<int> {
    let c = find_from(line, 0x3a, 0);
    if c >= line.len() {
        None
    } else {
        percentage_spec(line.subrange(c + 1, line.len() as int))
    }
}

/// What [`SMARTMonitor::extract_number_from_line`] returns: the leading
/// digit-and-comma run of the trimmed text after the first colon.
pub open spec fn number_from_line_spec(line: Seq<u8>) -> Option<int> {
    let c = find_from(line, 0x3a, 0);
    if c >= line.len() {
        None
    } else {
        let t = trim_spec(line.subrange(c + 1, line.len() as int));
        parse_u64_spec(strip_commas_spec(t.subrange(0, numlike_end(t, 0))))
    }
}

/// The bytes of `celsius`, for the temperature unit scan.
pub open spec fn celsius_marker() -> Seq<u8> {
    seq![0x63u8, 0x65u8, 0x6cu8, 0x73u8, 0x69u8, 0x75u8, 0x73u8]
}

/// First token, scanning from index `i`, that is a number fitting `u32`
/// and is followed by a Celsius unit token.
pub open spec fn temp_scan(toks: Seq<Seq<u8>>, i: int) -> Option<int>
    decreases toks.len() - i,
        when 0 <= i
{
    if i + 1 >= toks.len() {
        None
    } else {
        let p = parse_u64_spec(toks[i]);
        if p is Some && p->Some_0 <= u32::MAX && (contains_seq(
            lower_seq(toks[i + 1]),
            celsius_marker(),
        ) || lower_seq(toks[i + 1]) == seq![0x63u8]) {
            p
        } else {
            temp_scan(toks, i + 1)
        }
    }
}

/// What [`SMARTMonitor::extract_temperature`] returns.
pub open spec fn extract_temperature_spec(line: Seq<u8>) -> Option<int> {
    if tokens_spec(line).len() < 2 {
        None
    } else {
        temp_scan(tokens_spec(line), 0)
    }
}

/// The integer view of an optional temperature.
pub open spec fn opt_int32(r: Option<u32>) -> Option<int> {
    match r {
        Some(x) => Some(x as int),
        None => None,
    }
}

/// ASCII hexadecimal digit.
pub open spec fn is_hex_digit(b: u8) -> bool {
    is_digit(b) || (0x61 <= b <= 0x66) || (0x41 <= b <= 0x46)
}

/// Runtime test for [`is_hex_digit`].
fn is_hex_digit_byte(b: u8) -> (r: bool)
    ensures
        r == is_hex_digit(b),
{
    (0x30 <= b && b <= 0x39) || (0x61 <= b && b <= 0x66) || (0x41 <= b && b <= 0x46)
}

/// Value of a hex digit string, most significant first.
pub open spec fn hex_value(s: Seq<u8>) -> int
    decreases s.len(),
{
    if s.len() == 0 {
        0
    } else {
        hex_value(s.drop_last()) * 16 + hex_digit_value(s.last())
    }
}

/// Value of one hex digit byte.
pub open spec fn hex_digit_value(b: u8) -> int {
    if is_digit(b) {
        b - 0x30
    } else if 0x61 <= b <= 0x66 {
        b - 0x61 + 10
    } else if 0x41 <= b <= 0x46 {
        b - 0x41 + 10
    } else {
        0
    }
}

/// Parse a hexadecimal number; `None` on empty input, a non-hex-digit,
/// or overflow.
pub fn parse_hex_u64(v: &Vec<u8>) -> (r: Option<u64>)
    ensures
        opt_int(r) == parse_hex_spec(v@),
        r matches Some(x) ==> v@.len() > 0 && x == hex_value(v@),
{
    if v.len() == 0 {
        return None;
    }
    let mut acc: u64 = 0;
    let mut i: usize = 0;
    while i < v.len()
        invariant
            0 <= i <= v@.len(),
            all_hex(v@.subrange(0, i as int)),
            acc == hex_value(v@.subrange(0, i as int)),
        decreases v@.len() - i,
    {
        let b = v[i];
        let d: u64 = if 0x30 <= b && b <= 0x39 {
            (b - 0x30) as u64
        } else if 0x61 <= b && b <= 0x66 {
            (b - 0x61 + 10) as u64
        } else if 0x41 <= b && b <= 0x46 {
            (b - 0x41 + 10) as u64
        } else {
            proof {
                assert(!all_hex(v@)) by {
                    assert(!is_hex_digit(v@[i as int]));
                }
            }
            return None;
        };
        if acc > u64::MAX / 16 {
            proof {
                assert(v@.subrange(0, i as int + 1).drop_last() =~= v@.subrange(0, i as int));
                assert(v@.subrange(0, i as int + 1).last() == b);
                assert(hex_digit_value(b) == d);
                assert(hex_value(v@.subrange(0, i as int + 1)) > u64::MAX);
                if all_hex(v@) {
                    lemma_hex_value_prefix(v@, i as int + 1);
                }
            }
            return None;
        }
        proof {
            assert(hex_digit_value(v@[i as int]) == d);
            assert(is_hex_digit(v@[i as int]));
        }
        let ghost prefix = v@.subrange(0, i as int);
        acc = acc * 16 + d;
        i += 1;
        proof {
            assert(v@.subrange(0, i as int).drop_last() =~= prefix);
            assert(v@.subrange(0, i as int).last() == v@[i - 1]);
            assert(all_hex(v@.subrange(0, i as int))) by {
                assert(forall|k: int| 0 <= k < i ==> v@.subrange(0, i as int)[k] == v@[k]);
                assert(forall|k: int| 0 <= k < i - 1 ==> prefix[k] == v@[k]);
            }
        }
    }
    proof {
        assert(v@.subrange(0, v@.len() as int) =~= v@);
    }
    Some(acc)
}

/// An all-hex string has a non-negative value.
proof fn lemma_hex_value_nonneg(s: Seq<u8>)
    requires
        all_hex(s),
    ensures
        hex_value(s) >= 0,
    decreases s.len(),
{
    if s.len() > 0 {
        assert(all_hex(s.drop_last())) by {
            assert(forall|i: int| 0 <= i < s.len() - 1 ==> s.drop_last()[i] == s[i]);
        }
        lemma_hex_value_nonneg(s.drop_last());
        assert(is_hex_digit(s.last()));
    }
}

/// For an all-hex string, a longer prefix is worth at least as much.
proof fn lemma_hex_value_prefix(s: Seq<u8>, k: int)
    requires
        0 <= k <= s.len(),
        all_hex(s),
    ensures
        hex_value(s) >= hex_value(s.subrange(0, k)),
    decreases s.len() - k,
{
    if k < s.len() {
        lemma_hex_value_prefix(s, k + 1);
        assert(s.subrange(0, k + 1).drop_last() =~= s.subrange(0, k));
        assert(all_hex(s.subrange(0, k))) by {
            assert(forall|i: int| 0 <= i < k ==> s.subrange(0, k)[i] == s[i]);
        }
        lemma_hex_value_nonneg(s.subrange(0, k));
        assert(is_hex_digit(s.subrange(0, k + 1).last()));
    } else {
        assert(s.subrange(0, k) =~= s);
    }
}

/// The bytes of `v` with commas removed, other bytes kept in order.
fn strip_commas(v: &Vec<u8>) -> (r: Vec<u8>)
    ensures
        r@ == strip_commas_spec(v@),
{
    let mut r: Vec<u8> = Vec::new();
    let mut i: usize = 0;
    while i < v.len()
        invariant
            0 <= i <= v@.len(),
            strip_commas_spec(v@) == r@ + strip_commas_from(v@, i as int),
        decreases v@.len() - i,
    {
        let b = v[i];
        if b != 0x2c {
            let ghost old_r = r@;
            r.push(b);
            proof {
                assert(strip_commas_from(v@, i as int) == seq![v@[i as int]]
                    + strip_commas_from(v@, i + 1));
                assert(r@ =~= old_r + seq![b]);
                assert(old_r + (seq![b] + strip_commas_from(v@, i + 1)) =~= (old_r + seq![b])
                    + strip_commas_from(v@, i + 1));
            }
        }
        i += 1;
    }
    proof {
        assert(strip_commas_from(v@, v@.len() as int) =~= Seq::<u8>::empty());
        assert(r@ + strip_commas_from(v@, v@.len() as int) =~= r@);
    }
    r
}


impl SMARTMonitor {
    /// An empty health record awaiting parsed fields.
    fn empty_health() -> (r: SMARTHealth)
        ensures
            r.overall_health == HealthStatus::Unknown,
            fields_of(r) == empty_fields(),
            r.attributes@.len() == 0,
    {
        SMARTHealth {
            overall_health: HealthStatus::Unknown,
            temperature_celsius: None,
            power_on_hours: None,
            power_cycle_count: None,
            reallocated_sectors: None,
            pending_sectors: None,
            uncorrectable_errors: None,
            wear_level: None,
            bad_block_count: None,
            erase_fail_count: None,
            program_fail_count: None,
            critical_warning: None,
            available_spare: None,
            media_errors: None,
            attributes: Vec::new(),
        }
    }

    /// Health from `smartctl -A -H -i` output on an ATA drive: the
    /// attribute table rows after the `ID# ATTRIBUTE_NAME` header are
    /// parsed, named attributes populate the numeric fields (later rows
    /// win, as with a name-keyed map), and the overall health is
    /// normalised through the classification cascade. The attribute list
    /// keeps every accepted row; see [`SMARTHealth::attributes`].
    pub fn parse_ata_smart(output: &Vec<u8>) -> (r: DriveResult<SMARTHealth>)
        ensures
            r is Ok,
            r matches Ok(h) ==> ({
                let folded = ata_fold(lines_spec(output@), lines_spec(output@).len() as int);
                &&& fields_of(h) == folded.0
                &&& h.attributes@.len() == folded.2
                &&& h.overall_health == fields_health(folded.0)
            }),
    {
        let mut health = Self::empty_health();
        let lines = split_lines(output);
        let ghost lv = lines_spec(output@);
        let header: Vec<u8> = "ID# ATTRIBUTE_NAME".as_bytes_vec();
        let mut in_attributes = false;
        let mut li: usize = 0;
        let n = lines.len();
        proof {
            assert(fields_of(health) == empty_fields());
        }
        while li < n
            invariant
                n == lines@.len(),
                0 <= li <= n,
                lv == lines_spec(output@),
                pieces_view(lines@) == lv,
                header@ == ata_header(),
                (fields_of(health), in_attributes, health.attributes@.len() as int) == ata_fold(
                    lv,
                    li as int,
                ),
            decreases n - li,
        {
            let line = &lines[li];
            proof {
                assert(lines@[li as int]@ == lv[li as int]);
            }
            let ghost pre_state = ata_fold(lv, li as int);
            let has_header = contains_sub(line, &header);
            if has_header {
                in_attributes = true;
                li += 1;
                continue;
            }
            if !in_attributes {
                li += 1;
                continue;
            }
            let parts = split_whitespace(line);
            proof {
                assert(pieces_view(parts@) == tokens_spec(lv[li as int]));
            }
            if parts.len() < 10 {
                proof {
                    assert(!ata_row_accepted(lv[li as int]));
                }
                li += 1;
                continue;
            }
            proof {
                assert(parts@[0]@ == tokens_spec(lv[li as int])[0]);
                assert(parts@[1]@ == tokens_spec(lv[li as int])[1]);
                assert(parts@[3]@ == tokens_spec(lv[li as int])[3]);
                assert(parts@[9]@ == tokens_spec(lv[li as int])[9]);
            }
            let id_opt = parse_u64(&parts[0]);
            if let Some(id64) = id_opt {
                if id64 <= 255 {
                    let name = &parts[1];
                    let current = Self::small_u8(&parts[3]);
                    let worst = Self::small_u8(&parts[4]);
                    let threshold = Self::small_u8(&parts[5]);
                    let raw_value = Self::parse_raw_value(&parts[9]);
                    let failing_now = Self::bytes_eq_lit(&parts[8], "FAILING_NOW");
                    let failed_before = Self::bytes_eq_lit(&parts[8], "In_the_past");
                    if Self::bytes_eq_lit(name, "Temperature_Celsius") || Self::bytes_eq_lit(
                        name,
                        "Airflow_Temperature_Cel",
                    ) {
                        if raw_value <= u32::MAX as u64 {
                            health.temperature_celsius = Some(raw_value as u32);
                        }
                    } else if Self::bytes_eq_lit(name, "Power_On_Hours") {
                        health.power_on_hours = Some(raw_value);
                    } else if Self::bytes_eq_lit(name, "Power_Cycle_Count") {
                        health.power_cycle_count = Some(raw_value);
                    } else if Self::bytes_eq_lit(name, "Reallocated_Sector_Ct") {
                        health.reallocated_sectors = Some(raw_value);
                    } else if Self::bytes_eq_lit(name, "Current_Pending_Sector") {
                        health.pending_sectors = Some(raw_value);
                    } else if Self::bytes_eq_lit(name, "Offline_Uncorrectable")
                        || Self::bytes_eq_lit(name, "Uncorrectable_Error_Cnt") {
                        health.uncorrectable_errors = Some(raw_value);
                    } else if Self::bytes_eq_lit(name, "Wear_Leveling_Count")
                        || Self::bytes_eq_lit(name, "SSD_Life_Left") {
                        if current <= 100 {
                            health.wear_level = Some(100 - current);
                        }
                    } else if Self::bytes_eq_lit(name, "Bad_Block_Count") || Self::bytes_eq_lit(
                        name,
                        "Runtime_Bad_Block",
                    ) {
                        health.bad_block_count = Some(raw_value);
                    } else if Self::bytes_eq_lit(name, "Erase_Fail_Count") {
                        health.erase_fail_count = Some(raw_value);
                    } else if Self::bytes_eq_lit(name, "Program_Fail_Count")
                        || Self::bytes_eq_lit(name, "Program_Fail_Cnt_Total") {
                        health.program_fail_count = Some(raw_value);
                    }
                    let attribute = SMARTAttribute {
                        id: id64 as u8,
                        name: Self::bytes_to_string(name),
                        current,
                        worst,
                        threshold,
                        raw_value,
                        flags: Self::bytes_to_string(&parts[2]),
                        failing_now,
                        failed_before,
                    };
                    health.attributes.push(attribute);
                    proof {
                        assert(ata_row_accepted(lv[li as int]));
                        assert(fields_of(health) == ata_row_update(
                            pre_state.0,
                            lv[li as int],
                        ));
                    }
                } else {
                    proof {
                        assert(!ata_row_accepted(lv[li as int]));
                    }
                }
            } else {
                proof {
                    assert(!ata_row_accepted(lv[li as int]));
                }
            }
            li += 1;
        }
        health.overall_health = Self::determine_health_status(&health);
        Ok(health)
    }

    /// Health from `nvme smart-log` output: lower-cased keyword lines
    /// populate the numeric fields; temperatures above 273 are taken as
    /// Kelvin and converted.
    pub fn parse_nvme_smart(output: &Vec<u8>) -> (r: DriveResult<SMARTHealth>)
        ensures
            r is Ok,
            r matches Ok(h) ==> ({
                let folded = nvme_fold(lines_spec(output@), lines_spec(output@).len() as int);
                &&& fields_of(h) == folded
                &&& h.overall_health == fields_health(folded)
            }),
    {
        let mut health = Self::empty_health();
        let lines = split_lines(output);
        let ghost lv = lines_spec(output@);
        let mut li: usize = 0;
        let n = lines.len();
        proof {
            assert(fields_of(health) == empty_fields());
        }
        while li < n
            invariant
                n == lines@.len(),
                0 <= li <= n,
                lv == lines_spec(output@),
                pieces_view(lines@) == lv,
                fields_of(health) == nvme_fold(lv, li as int),
            decreases n - li,
        {
            proof {
                assert(lines@[li as int]@ == lv[li as int]);
            }
            let ghost pre_state = nvme_fold(lv, li as int);
            let line = crate::bytes::to_lower(&lines[li]);
            proof {
                assert(line@ == lower_seq(lv[li as int]));
            }
            if Self::bytes_has_lit(&line, "critical_warning") {
                if let Some(v) = Self::extract_hex_value(&line) {
                    if v <= 255 {
                        health.critical_warning = Some(v as u8);
                    }
                }
            } else if Self::bytes_has_lit(&line, "temperature") && !Self::bytes_has_lit(
                &line,
                "sensor",
            ) {
                if let Some(v) = Self::extract_number(&line) {
                    let celsius = if v > 273 {
                        v - 273
                    } else {
                        v
                    };
                    if celsius <= u32::MAX as u64 {
                        health.temperature_celsius = Some(celsius as u32);
                    }
                }
            } else if Self::bytes_has_lit(&line, "power_on_hours") {
                if let Some(v) = Self::extract_number(&line) {
                    health.power_on_hours = Some(v);
                }
            } else if Self::bytes_has_lit(&line, "power_cycles") {
                if let Some(v) = Self::extract_number(&line) {
                    health.power_cycle_count = Some(v);
                }
            } else if Self::bytes_has_lit(&line, "media_errors") {
                if let Some(v) = Self::extract_number(&line) {
                    health.media_errors = Some(v);
                }
            } else if Self::bytes_has_lit(&line, "percentage_used") {
                if let Some(v) = Self::extract_number(&line) {
                    if v <= 255 {
                        health.wear_level = Some(v as u8);
                    }
                }
            } else if Self::bytes_has_lit(&line, "available_spare") && !Self::bytes_has_lit(
                &line,
                "threshold",
            ) {
                if let Some(v) = Self::extract_percentage(&line) {
                    if v <= 255 {
                        health.available_spare = Some(v as u8);
                    }
                }
            }
            proof {
                assert(fields_of(health) == nvme_line_step(pre_state, lv[li as int]));
            }
            li += 1;
        }
        health.overall_health = Self::determine_health_status(&health);
        Ok(health)
    }

    /// Health from `smartctl` output on an NVMe drive.
    pub fn parse_nvme_smart_smartctl(output: &Vec<u8>) -> (r: DriveResult<SMARTHealth>)
        ensures
            r is Ok,
            r matches Ok(h) ==> ({
                let folded = nvme_sc_fold(lines_spec(output@), lines_spec(output@).len() as int);
                &&& fields_of(h) == folded
                &&& h.overall_health == fields_health(folded)
            }),
    {
        let mut health = Self::empty_health();
        let lines = split_lines(output);
        let ghost lv = lines_spec(output@);
        let mut li: usize = 0;
        let n = lines.len();
        proof {
            assert(fields_of(health) == empty_fields());
        }
        while li < n
            invariant
                n == lines@.len(),
                0 <= li <= n,
                lv == lines_spec(output@),
                pieces_view(lines@) == lv,
                fields_of(health) == nvme_sc_fold(lv, li as int),
            decreases n - li,
        {
            let line = &lines[li];
            proof {
                assert(lines@[li as int]@ == lv[li as int]);
            }
            let ghost pre_state = nvme_sc_fold(lv, li as int);
            if Self::bytes_has_lit(line, "Temperature:") {
                if let Some(t) = Self::extract_temperature(line) {
                    health.temperature_celsius = Some(t);
                }
            } else if Self::bytes_has_lit(line, "Power On Hours:") {
                if let Some(v) = Self::extract_number_from_line(line) {
                    health.power_on_hours = Some(v);
                }
            } else if Self::bytes_has_lit(line, "Power Cycles:") {
                if let Some(v) = Self::extract_number_from_line(line) {
                    health.power_cycle_count = Some(v);
                }
            } else if Self::bytes_has_lit(line, "Media and Data Integrity Errors:") {
                if let Some(v) = Self::extract_number_from_line(line) {
                    health.media_errors = Some(v);
                }
            } else if Self::bytes_has_lit(line, "Percentage Used:") {
                if let Some(v) = Self::extract_percentage_from_line(line) {
                    if v <= 255 {
                        health.wear_level = Some(v as u8);
                    }
                }
            } else if Self::bytes_has_lit(line, "Available Spare:") {
                if let Some(v) = Self::extract_percentage_from_line(line) {
                    if v <= 255 {
                        health.available_spare = Some(v as u8);
                    }
                }
            }
            proof {
                assert(fields_of(health) == nvme_sc_line_step(pre_state, lv[li as int]));
            }
            li += 1;
        }
        health.overall_health = Self::determine_health_status(&health);
        Ok(health)
    }

    /// Health from one monitoring-tool run: NVMe device paths get the
    /// NVMe parser, everything else the ATA attribute-table parser.
    pub fn get_health(device_path: &str, tool_output: &Vec<u8>) -> (r: DriveResult<SMARTHealth>)
        ensures
            r is Ok,
            r matches Ok(h) ==> ({
                let folded = if path_is_nvme(device_path@) {
                    nvme_fold(lines_spec(tool_output@), lines_spec(tool_output@).len() as int)
                } else {
                    ata_fold(lines_spec(tool_output@), lines_spec(tool_output@).len() as int).0
                };
                &&& fields_of(h) == folded
                &&& h.overall_health == fields_health(folded)
            }),
    {
        let bytes = device_path.as_bytes_vec();
        let nvme: Vec<u8> = vec![0x6e, 0x76, 0x6d, 0x65];
        proof {
            assert(nvme@ =~= seq![0x6eu8, 0x76u8, 0x6du8, 0x65u8]);
        }
        if contains_sub(&bytes, &nvme) {
            Self::parse_nvme_smart(tool_output)
        } else {
            Self::parse_ata_smart(tool_output)
        }
    }

    /// Lifetime writes in bytes from `smartctl -A` output: a
    /// `Total_LBAs_Written`-style attribute row is read as 512-byte
    /// sectors. The result, when present, is a whole number of sectors.
    pub fn get_lifetime_writes(smartctl_output: &Vec<u8>) -> (r: Option<u64>)
        ensures
            opt_int(r) == lifetime_scan(lines_spec(smartctl_output@), 0),
            r matches Some(x) ==> x % 512 == 0,
    {
        let lines = split_lines(smartctl_output);
        let ghost lv = lines_spec(smartctl_output@);
        let mut li: usize = 0;
        let n = lines.len();
        while li < n
            invariant
                n == lines@.len(),
                0 <= li <= n,
                lv == lines_spec(smartctl_output@),
                pieces_view(lines@) == lv,
                lifetime_scan(lv, 0) == lifetime_scan(lv, li as int),
            decreases n - li,
        {
            let line = &lines[li];
            proof {
                assert(lines@[li as int]@ == lv[li as int]);
            }
            if Self::bytes_has_lit(line, "Total_LBAs_Written") || Self::bytes_has_lit(
                line,
                "Lifetime_Writes",
            ) || Self::bytes_has_lit(line, "Host_Writes") {
                let parts = split_whitespace(line);
                proof {
                    assert(pieces_view(parts@) == tokens_spec(lv[li as int]));
                }
                if parts.len() >= 10 {
                    proof {
                        assert(parts@[9]@ == tokens_spec(lv[li as int])[9]);
                    }
                    if let Some(sectors) = parse_u64(&parts[9]) {
                        if sectors <= u64::MAX / 512 {
                            proof {
                                assert((sectors * 512) % 512 == 0) by (nonlinear_arith);
                            }
                            return Some(sectors * 512);
                        }
                    }
                }
            }
            li += 1;
        }
        None
    }

    /// A token parsed as `u8`, zero when it does not fit.
    fn small_u8(v: &Vec<u8>) -> (r: u8)
        ensures
            r as int == small_u8_spec(v@),
    {
        match parse_u64(v) {
            Some(x) => if x <= 255 {
                x as u8
            } else {
                0
            },
            None => 0,
        }
    }

    /// Byte-wise equality against an ASCII literal.
    fn bytes_eq_lit(v: &Vec<u8>, lit: &str) -> (r: bool)
        ensures
            r == (v@ =~= vstd::utf8::encode_utf8(lit@)),
    {
        let l = lit.as_bytes_vec();
        crate::bytes::eq_vec(v, &l)
    }

    /// Substring test against an ASCII literal.
    fn bytes_has_lit(v: &Vec<u8>, lit: &str) -> (r: bool)
        ensures
            r == contains_seq(v@, vstd::utf8::encode_utf8(lit@)),
    {
        let l = lit.as_bytes_vec();
        contains_sub(v, &l)
    }

    /// Relies on `String::from_utf8_lossy`: a `String` holding the bytes
    /// of an attribute token, invalid UTF-8 replaced. The token text is
    /// carried for display only, so nothing is promised of it.
    #[verifier::external_body]
    fn bytes_to_string(v: &Vec<u8>) -> (r: String)
    {
        String::from_utf8_lossy(v).into_owned()
    }
}

} // verus!
