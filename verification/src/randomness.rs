//! The randomness test battery over a byte sample, in exact integer
//! arithmetic: runs, monobit, poker, serial and autocorrelation tests.
//! Each float criterion of the usual presentation is an equivalent
//! integer comparison (thresholds scaled by 1000 or 1000000).

use vstd::prelude::*;
use crate::stats::MAX_ANALYSIS_LEN;

verus! {

/// Bit `i` (least significant first) of a byte.
pub open spec fn bit_of(b: u8, i: int) -> u8
    recommends
        0 <= i < 8,
{
    (b >> (i as u8)) & 1
}

/// The bit sequence the runs test walks: bit 0 of byte 0, then all eight
/// bits of every following byte.
pub open spec fn walk_bits(s: Seq<u8>) -> Seq<u8>
    recommends
        s.len() >= 1,
{
    Seq::new(
        1 + 8 * (s.len() - 1) as nat,
        |j: int|
            if j == 0 {
                bit_of(s[0], 0)
            } else {
                bit_of(s[(j + 7) / 8], (j + 7) % 8)
            },
    )
}

/// Transitions between adjacent values among the first `upto` entries.
pub open spec fn count_transitions(w: Seq<u8>, upto: int) -> int
    decreases upto,
{
    if upto <= 1 {
        0
    } else {
        count_transitions(w, upto - 1) + if w[upto - 1] != w[upto - 2] {
            1int
        } else {
            0int
        }
    }
}

/// Number of runs in the walked bit sequence.
pub open spec fn runs_count(s: Seq<u8>) -> int
    recommends
        s.len() >= 1,
{
    1 + count_transitions(walk_bits(s), walk_bits(s).len() as int)
}

/// Runs-test criterion `|z| < 2.576` stated exactly:
/// `(2*runs - n)^2 * 10^6 < 2.576^2 * 10^6 * (n - 1)` with `n = 8*len`.
pub open spec fn runs_pass_spec(s: Seq<u8>) -> bool
    recommends
        s.len() >= 1,
{
    let nbits = 8 * s.len() as int;
    let d = 2 * runs_count(s) - nbits;
    1000000 * d * d < 6635776 * (nbits - 1)
}

/// Runs test: counts bit-level runs and applies the 99% two-sided
/// normal-approximation bound.
pub fn runs_test(data: &Vec<u8>) -> (r: bool)
    requires
        1 <= data@.len(),
        data@.len() as u64 <= MAX_ANALYSIS_LEN,
    ensures
        r == runs_pass_spec(data@),
{
    let n = data.len();
    let ghost w = walk_bits(data@);
    let mut runs: u64 = 1;
    let mut prev: u8 = data[0] & 1;
    proof {
        let b0 = data@[0];
        assert((b0 >> 0u8) & 1 == b0 & 1) by (bit_vector);
        assert(prev == bit_of(b0, 0));
        assert(w[0] == bit_of(data@[0], 0));
    }
    let mut i: usize = 1;
    let ghost mut j: int = 1;
    while i < n
        invariant
            1 <= i <= n,
            n == data@.len(),
            n as u64 <= MAX_ANALYSIS_LEN,
            w == walk_bits(data@),
            j == 1 + 8 * (i - 1),
            j <= w.len(),
            runs == 1 + count_transitions(w, j),
            runs <= j,
            prev == w[j - 1],
        decreases n - i,
    {
        let b = data[i];
        let mut t: u8 = 0;
        while t < 8
            invariant
                0 <= t <= 8,
                1 <= i < n,
                n == data@.len(),
                n as u64 <= MAX_ANALYSIS_LEN,
                w == walk_bits(data@),
                b == data@[i as int],
                j == 1 + 8 * (i - 1) + t,
                j <= w.len(),
                runs == 1 + count_transitions(w, j),
                runs <= j,
                prev == w[j - 1],
            decreases 8 - t,
        {
            let bit = (b >> t) & 1;
            proof {
                assert(bit == bit_of(b, t as int));
                assert(j + 7 == 8 * i + t);
                assert((8 * (i as int) + t) / 8 == i as int && (8 * (i as int) + t) % 8
                    == t as int) by (nonlinear_arith)
                    requires 0 <= t < 8, 1 <= i;
                assert(w[j] == bit_of(data@[i as int], t as int));
            }
            if bit != prev {
                runs += 1;
                prev = bit;
            }
            proof {
                assert(count_transitions(w, j + 1) == count_transitions(w, j) + if w[j] != w[j
                    - 1] {
                    1int
                } else {
                    0int
                });
                j = j + 1;
            }
            t += 1;
        }
        i += 1;
    }
    proof {
        assert(j == w.len());
    }
    let nbits: u64 = 8 * (n as u64);
    proof {
        assert(runs as int <= 1 + 8 * ((n as int) - 1));
    }
    let a: u64 = 2 * runs;
    let d: u64 = if a >= nbits {
        a - nbits
    } else {
        nbits - a
    };
    proof {
        assert(d as int <= 0x2000000000000);
        assert(1000000 * (d as int) * (d as int) < 0x100000000000000000000000000000000)
            by (nonlinear_arith)
            requires 0 <= d as int <= 0x2000000000000;
    }
    let lhs: u128 = 1000000 * (d as u128) * (d as u128);
    let rhs: u128 = 6635776 * ((nbits - 1) as u128);
    proof {
        assert(runs as int == runs_count(data@));
        let di = 2 * runs_count(data@) - 8 * data@.len() as int;
        assert((d as int) * (d as int) == di * di) by (nonlinear_arith)
            requires
                d as int == if di >= 0 {
                    di
                } else {
                    -di
                };
        assert(1000000 * di * di == 1000000 * (d as int) * (d as int)) by (nonlinear_arith)
            requires di * di == (d as int) * (d as int);
    }
    lhs < rhs
}

/// Ones among the first `t` bits of a byte.
pub open spec fn ones_partial(b: u8, t: int) -> int
    decreases t,
{
    if t <= 0 {
        0
    } else {
        ones_partial(b, t - 1) + bit_of(b, t - 1)
    }
}

/// Total one-bits in the first `upto` bytes.
pub open spec fn ones_count(s: Seq<u8>, upto: int) -> int
    decreases upto,
{
    if upto <= 0 {
        0
    } else {
        ones_count(s, upto - 1) + ones_partial(s[upto - 1], 8)
    }
}

/// Monobit criterion: `|#ones - #zeros| < max(len, 100)`.
pub open spec fn monobit_pass_spec(s: Seq<u8>) -> bool {
    let ones = ones_count(s, s.len() as int);
    let zeros = 8 * s.len() - ones;
    let d = if ones >= zeros {
        ones - zeros
    } else {
        zeros - ones
    };
    d < if s.len() >= 100 {
        s.len() as int
    } else {
        100
    }
}

/// Monobit test: one and zero bits must be roughly balanced.
pub fn monobit_test(data: &Vec<u8>) -> (r: bool)
    requires
        data@.len() as u64 <= MAX_ANALYSIS_LEN,
    ensures
        r == monobit_pass_spec(data@),
{
    let n = data.len();
    let mut ones: u64 = 0;
    let mut i: usize = 0;
    while i < n
        invariant
            0 <= i <= n,
            n == data@.len(),
            n as u64 <= MAX_ANALYSIS_LEN,
            ones == ones_count(data@, i as int),
            ones <= 8 * i,
        decreases n - i,
    {
        let b = data[i];
        let mut t: u8 = 0;
        let mut byte_ones: u64 = 0;
        while t < 8
            invariant
                0 <= t <= 8,
                b == data@[i as int],
                byte_ones == ones_partial(b, t as int),
                byte_ones <= t,
            decreases 8 - t,
        {
            let bit = (b >> t) & 1;
            proof {
                assert(bit == bit_of(b, t as int));
                assert((b >> t) & 1 <= 1) by (bit_vector);
            }
            byte_ones += bit as u64;
            t += 1;
        }
        ones += byte_ones;
        i += 1;
    }
    let total: u64 = 8 * (n as u64);
    let zeros: u64 = total - ones;
    proof {
        lemma_ones_le(data@, n as int);
    }
    let d: u64 = if ones >= zeros {
        ones - zeros
    } else {
        zeros - ones
    };
    let bound: u64 = if n as u64 >= 100 {
        n as u64
    } else {
        100
    };
    d < bound
}

/// The one-bit count never exceeds the bit count.
proof fn lemma_ones_le(s: Seq<u8>, upto: int)
    requires
        0 <= upto <= s.len(),
    ensures
        0 <= ones_count(s, upto) <= 8 * upto,
    decreases upto,
{
    if upto > 0 {
        lemma_ones_le(s, upto - 1);
        lemma_ones_partial_le(s[upto - 1], 8);
    }
}

proof fn lemma_ones_partial_le(b: u8, t: int)
    requires
        0 <= t <= 8,
    ensures
        0 <= ones_partial(b, t) <= t,
    decreases t,
{
    if t > 0 {
        lemma_ones_partial_le(b, t - 1);
        let u = (t - 1) as u8;
        assert((b >> u) & 1 <= 1) by (bit_vector);
        assert(bit_of(b, t - 1) == (b >> u) & 1);
    }
}

/// Occurrences of the 4-bit value `v` among both nibbles of the first
/// `upto` bytes.
pub open spec fn nibble_count(s: Seq<u8>, v: u8, upto: int) -> int
    decreases upto,
{
    if upto <= 0 {
        0
    } else {
        nibble_count(s, v, upto - 1) + (if s[upto - 1] & 0x0f == v {
            1int
        } else {
            0int
        }) + (if s[upto - 1] >> 4 == v {
            1int
        } else {
            0int
        })
    }
}

/// Sum of squared nibble counts over the first `b` of the 16 values.
pub open spec fn nibble_sq_sum(s: Seq<u8>, b: int) -> int
    decreases b,
{
    if b <= 0 {
        0
    } else {
        nibble_sq_sum(s, b - 1) + nibble_count(s, (b - 1) as u8, s.len() as int) * nibble_count(
            s,
            (b - 1) as u8,
            s.len() as int,
        )
    }
}

/// Poker criterion, `chi^2 < 30.578` over 4-bit blocks stated exactly:
/// `16000 * sum(f^2) < n * (30578 + 1000*n)` with `n = 2*len`.
pub open spec fn poker_pass_spec(s: Seq<u8>) -> bool {
    let n = 2 * s.len() as int;
    16000 * nibble_sq_sum(s, 16) < n * (30578 + 1000 * n)
}

/// Poker test: 4-bit block frequencies against the uniform expectation.
pub fn poker_test(data: &Vec<u8>) -> (r: bool)
    requires
        data@.len() as u64 <= MAX_ANALYSIS_LEN,
    ensures
        r == poker_pass_spec(data@),
{
    let n = data.len();
    let mut freq: Vec<u64> = Vec::new();
    let mut t: usize = 0;
    while t < 16
        invariant
            freq@.len() == t,
            0 <= t <= 16,
            forall|v: int| 0 <= v < t ==> (#[trigger] freq@[v]) == 0,
        decreases 16 - t,
    {
        freq.push(0);
        t += 1;
    }
    let mut i: usize = 0;
    while i < n
        invariant
            freq@.len() == 16,
            0 <= i <= n,
            n == data@.len(),
            n as u64 <= MAX_ANALYSIS_LEN,
            forall|v: int| 0 <= v < 16 ==> (#[trigger] freq@[v]) as int == nibble_count(
                data@,
                v as u8,
                i as int,
            ),
            forall|v: int| 0 <= v < 16 ==> (#[trigger] freq@[v]) as int <= 2 * i,
        decreases n - i,
    {
        let b = data[i];
        let lo = (b & 0x0f) as usize;
        let hi = (b >> 4) as usize;
        proof {
            assert(b & 0x0f < 16 && b >> 4 < 16) by (bit_vector);
        }
        let cur_lo = freq[lo];
        freq.set(lo, cur_lo + 1);
        let cur_hi = freq[hi];
        freq.set(hi, cur_hi + 1);
        i += 1;
    }
    let mut sum: u128 = 0;
    let mut v: usize = 0;
    while v < 16
        invariant
            freq@.len() == 16,
            0 <= v <= 16,
            n == data@.len(),
            n as u64 <= MAX_ANALYSIS_LEN,
            forall|t2: int| 0 <= t2 < 16 ==> (#[trigger] freq@[t2]) as int == nibble_count(
                data@,
                t2 as u8,
                n as int,
            ),
            forall|t2: int| 0 <= t2 < 16 ==> (#[trigger] freq@[t2]) as int <= 2 * (n as int),
            sum as int == nibble_sq_sum(data@, v as int),
            sum as int <= v * (2 * (n as int)) * (2 * (n as int)),
        decreases 16 - v,
    {
        let f = freq[v];
        proof {
            assert((f as int) * (f as int) <= (2 * (n as int)) * (2 * (n as int)))
                by (nonlinear_arith)
                requires 0 <= f as int <= 2 * (n as int);
            assert(sum as int + (f as int) * (f as int) <= (v + 1) * (2 * (n as int)) * (2 * (
            n as int))) by (nonlinear_arith)
                requires
                    sum as int <= v * (2 * (n as int)) * (2 * (n as int)),
                    (f as int) * (f as int) <= (2 * (n as int)) * (2 * (n as int)),
                    v >= 0;
            assert((v + 1) * (2 * (n as int)) * (2 * (n as int)) < 0x1000000000000000000000000)
                by (nonlinear_arith)
                requires 0 <= v + 1 <= 16, 0 <= n as int <= 0x100000000000;
        }
        sum = sum + (f as u128) * (f as u128);
        v += 1;
    }
    let nn: u128 = 2 * (n as u128);
    proof {
        assert(16000 * sum < 0x100000000000000000000000000000000) by (nonlinear_arith)
            requires sum as int <= 16 * (2 * (n as int)) * (2 * (n as int)),
                0 <= n as int <= 0x100000000000;
        assert(nn * (30578 + 1000 * nn) < 0x100000000000000000000000000000000)
            by (nonlinear_arith)
            requires nn as int == 2 * (n as int), 0 <= n as int <= 0x100000000000;
    }
    16000 * sum < nn * (30578 + 1000 * nn)
}

/// Occurrences of the 2-bit value `v` among the four blocks of the first
/// `upto` bytes.
pub open spec fn pair_count(s: Seq<u8>, v: u8, upto: int) -> int
    decreases upto,
{
    if upto <= 0 {
        0
    } else {
        pair_count(s, v, upto - 1) + (if s[upto - 1] & 0x03 == v {
            1int
        } else {
            0int
        }) + (if (s[upto - 1] >> 2) & 0x03 == v {
            1int
        } else {
            0int
        }) + (if (s[upto - 1] >> 4) & 0x03 == v {
            1int
        } else {
            0int
        }) + (if (s[upto - 1] >> 6) & 0x03 == v {
            1int
        } else {
            0int
        })
    }
}

/// Sum of squared 2-bit block counts over the first `b` of the 4 values.
pub open spec fn pair_sq_sum(s: Seq<u8>, b: int) -> int
    decreases b,
{
    if b <= 0 {
        0
    } else {
        pair_sq_sum(s, b - 1) + pair_count(s, (b - 1) as u8, s.len() as int) * pair_count(
            s,
            (b - 1) as u8,
            s.len() as int,
        )
    }
}

/// Serial criterion, `chi^2 < 11.345` over 2-bit blocks stated exactly:
/// `4000 * sum(f^2) < m * (11345 + 1000*m)` with `m = 4*len`.
pub open spec fn serial_pass_spec(s: Seq<u8>) -> bool {
    let m = 4 * s.len() as int;
    4000 * pair_sq_sum(s, 4) < m * (11345 + 1000 * m)
}

/// Serial test: 2-bit block frequencies against the uniform expectation.
pub fn serial_test(data: &Vec<u8>) -> (r: bool)
    requires
        data@.len() as u64 <= MAX_ANALYSIS_LEN,
    ensures
        r == serial_pass_spec(data@),
{
    let n = data.len();
    let mut freq: Vec<u64> = Vec::new();
    let mut t: usize = 0;
    while t < 4
        invariant
            freq@.len() == t,
            0 <= t <= 4,
            forall|v: int| 0 <= v < t ==> (#[trigger] freq@[v]) == 0,
        decreases 4 - t,
    {
        freq.push(0);
        t += 1;
    }
    let mut i: usize = 0;
    while i < n
        invariant
            freq@.len() == 4,
            0 <= i <= n,
            n == data@.len(),
            n as u64 <= MAX_ANALYSIS_LEN,
            forall|v: int| 0 <= v < 4 ==> (#[trigger] freq@[v]) as int == pair_count(
                data@,
                v as u8,
                i as int,
            ),
            forall|v: int| 0 <= v < 4 ==> (#[trigger] freq@[v]) as int <= 4 * i,
        decreases n - i,
    {
        let b = data[i];
        let b0 = (b & 0x03) as usize;
        let b1 = ((b >> 2) & 0x03) as usize;
        let b2 = ((b >> 4) & 0x03) as usize;
        let b3 = ((b >> 6) & 0x03) as usize;
        proof {
            assert(b & 0x03 < 4 && (b >> 2) & 0x03 < 4 && (b >> 4) & 0x03 < 4 && (b >> 6) & 0x03
                < 4) by (bit_vector);
        }
        let c0 = freq[b0];
        freq.set(b0, c0 + 1);
        let c1 = freq[b1];
        freq.set(b1, c1 + 1);
        let c2 = freq[b2];
        freq.set(b2, c2 + 1);
        let c3 = freq[b3];
        freq.set(b3, c3 + 1);
        i += 1;
    }
    let mut sum: u128 = 0;
    let mut v: usize = 0;
    while v < 4
        invariant
            freq@.len() == 4,
            0 <= v <= 4,
            n == data@.len(),
            n as u64 <= MAX_ANALYSIS_LEN,
            forall|t2: int| 0 <= t2 < 4 ==> (#[trigger] freq@[t2]) as int == pair_count(
                data@,
                t2 as u8,
                n as int,
            ),
            forall|t2: int| 0 <= t2 < 4 ==> (#[trigger] freq@[t2]) as int <= 4 * (n as int),
            sum as int == pair_sq_sum(data@, v as int),
            sum as int <= v * (4 * (n as int)) * (4 * (n as int)),
        decreases 4 - v,
    {
        let f = freq[v];
        proof {
            assert((f as int) * (f as int) <= (4 * (n as int)) * (4 * (n as int)))
                by (nonlinear_arith)
                requires 0 <= f as int <= 4 * (n as int);
            assert(sum as int + (f as int) * (f as int) <= (v + 1) * (4 * (n as int)) * (4 * (
            n as int))) by (nonlinear_arith)
                requires
                    sum as int <= v * (4 * (n as int)) * (4 * (n as int)),
                    (f as int) * (f as int) <= (4 * (n as int)) * (4 * (n as int)),
                    v >= 0;
            assert((v + 1) * (4 * (n as int)) * (4 * (n as int)) < 0x1000000000000000000000000)
                by (nonlinear_arith)
                requires 0 <= v + 1 <= 4, 0 <= n as int <= 0x100000000000;
        }
        sum = sum + (f as u128) * (f as u128);
        v += 1;
    }
    let m: u128 = 4 * (n as u128);
    proof {
        assert(4000 * sum < 0x100000000000000000000000000000000) by (nonlinear_arith)
            requires sum as int <= 4 * (4 * (n as int)) * (4 * (n as int)),
                0 <= n as int <= 0x100000000000;
        assert(m * (11345 + 1000 * m) < 0x100000000000000000000000000000000)
            by (nonlinear_arith)
            requires m as int == 4 * (n as int), 0 <= n as int <= 0x100000000000;
    }
    4000 * sum < m * (11345 + 1000 * m)
}

/// Signed correlation sum at `lag` over the first `upto` positions:
/// `sum((s[i] - 128) * (s[i+lag] - 128))`.
pub open spec fn corr_partial(s: Seq<u8>, lag: int, upto: int) -> int
    decreases upto,
{
    if upto <= 0 {
        0
    } else {
        corr_partial(s, lag, upto - 1) + (s[upto - 1] - 128) * (s[upto - 1 + lag] - 128)
    }
}

/// Autocorrelation criterion: at every lag `1 <= lag < min(100, len)`,
/// the normalised correlation may not exceed 0.1 in magnitude, stated
/// exactly as `10 * |corr| <= 16384 * (len - lag)`.
pub open spec fn autocorr_pass_spec(s: Seq<u8>) -> bool {
    forall|lag: int|
        1 <= lag < (if s.len() < 100 {
            s.len() as int
        } else {
            100
        }) ==> 10 * abs_int(#[trigger] corr_partial(s, lag, s.len() - lag)) <= 16384 * (s.len()
            - lag)
}

/// Absolute value.
pub open spec fn abs_int(x: int) -> int {
    if x >= 0 {
        x
    } else {
        -x
    }
}

/// Autocorrelation test at lags 1 through `min(100, len) - 1`.
pub fn autocorrelation_test(data: &Vec<u8>) -> (r: bool)
    requires
        data@.len() as u64 <= MAX_ANALYSIS_LEN,
    ensures
        r == autocorr_pass_spec(data@),
{
    let n = data.len();
    let max_lag: usize = if n < 100 {
        n
    } else {
        100
    };
    let mut lag: usize = 1;
    while lag < max_lag
        invariant
            1 <= lag <= if max_lag >= 1 {
                max_lag as int
            } else {
                1
            },
            n == data@.len(),
            n as u64 <= MAX_ANALYSIS_LEN,
            max_lag == if n < 100 {
                n as int
            } else {
                100
            },
            forall|l: int| 1 <= l < lag ==> 10 * abs_int(
                #[trigger] corr_partial(data@, l, n - l),
            ) <= 16384 * (n - l),
        decreases max_lag - lag,
    {
        let mut acc: i64 = 0;
        let mut i: usize = 0;
        let upper = n - lag;
        while i < upper
            invariant
                0 <= i <= upper,
                upper == n - lag,
                1 <= lag < n,
                n == data@.len(),
                n as u64 <= MAX_ANALYSIS_LEN,
                acc as int == corr_partial(data@, lag as int, i as int),
                -16384 * (i as int) <= acc as int <= 16384 * (i as int),
            decreases upper - i,
        {
            let a: i64 = data[i] as i64 - 128;
            let b: i64 = data[i + lag] as i64 - 128;
            proof {
                assert((a as int) * (b as int) <= 16384 && (a as int) * (b as int) >= -16384)
                    by (nonlinear_arith)
                    requires -128 <= a as int <= 127, -128 <= b as int <= 127;
            }
            acc = acc + a * b;
            i += 1;
        }
        let mag: i64 = if acc >= 0 {
            acc
        } else {
            -acc
        };
        proof {
            assert((16384 * ((n - lag) as int)) < 0x4000000000000000) by (nonlinear_arith)
                requires 0 <= (n - lag) as int <= 0x100000000000;
        }
        if 10 * (mag as i128) > 16384 * ((n - lag) as i128) {
            proof {
                assert(!autocorr_pass_spec(data@));
            }
            return false;
        }
        lag += 1;
    }
    true
}

} // verus!
