//! Exact integer statistics over byte samples: Shannon entropy in
//! milli-bits (8000 = 8 bits per byte) computed through a fixed-point
//! binary logarithm, and the chi-square goodness-of-fit statistic in
//! milli-units against the uniform distribution over 256 byte values.

use vstd::prelude::*;
use vstd::arithmetic::div_mod::{
    lemma_div_is_ordered, lemma_div_multiples_vanish, lemma_multiply_divide_le,
    lemma_multiply_divide_lt,
};
use vstd::arithmetic::mul::lemma_mul_inequality;
use vstd::arithmetic::power2::{lemma2_to64, lemma2_to64_rest, pow2};

verus! {

/// Upper bound on the length of a sample handed to the analyzers, so that
/// every intermediate product below fits in 128 bits (16 TiB; samples are
/// clamped to 1 GiB long before this).
pub const MAX_ANALYSIS_LEN: u64 = 0x100000000000;

/// `floor(log2(n / c))` for `1 <= c <= n`.
pub open spec fn ilog2_ratio(n: int, c: int) -> int
    recommends
        1 <= c <= n,
    decreases n - c,
        when 1 <= c <= n
{
    if 2 * c <= n {
        1 + ilog2_ratio(n, 2 * c)
    } else {
        0
    }
}

/// One squaring step on a Q32 mantissa held in `[2^32, 2^33)`.
pub open spec fn mantissa_step(x: int) -> int {
    let sq = (x * x) / 0x100000000;
    if sq >= 0x200000000 {
        sq / 2
    } else {
        sq
    }
}

/// The mantissa after `j` squaring steps.
pub open spec fn mantissa_at(x0: int, j: nat) -> int
    decreases j,
{
    if j == 0 {
        x0
    } else {
        mantissa_step(mantissa_at(x0, (j - 1) as nat))
    }
}

/// The binary fraction digits produced by the first `j` squaring steps,
/// packed most-significant first.
pub open spec fn frac_bits(x0: int, j: nat) -> int
    decreases j,
{
    if j == 0 {
        0
    } else {
        let prev = mantissa_at(x0, (j - 1) as nat);
        2 * frac_bits(x0, (j - 1) as nat) + if (prev * prev) / 0x100000000 >= 0x200000000 {
            1int
        } else {
            0int
        }
    }
}

/// The Q32 mantissa of `n / c` once the integer part is removed.
pub open spec fn start_mantissa(n: int, c: int) -> int {
    (n * 0x100000000) / (c * pow2(ilog2_ratio(n, c) as nat) as int)
}

/// `log2(n / c)` in milli-bits, rounded down, with 16 fraction digits.
pub open spec fn log2_milli(n: int, c: int) -> int
    recommends
        1 <= c <= n,
{
    1000 * ilog2_ratio(n, c) + (1000 * frac_bits(start_mantissa(n, c), 16)) / 65536
}

/// Fixed-point binary logarithm of the ratio `n / c`, in milli-bits.
pub fn log2_ratio_milli(n: u64, c: u64) -> (r: u64)
    requires
        1 <= c <= n,
    ensures
        r == log2_milli(n as int, c as int),
        r <= 63999,
{
    proof {
        lemma2_to64();
        lemma2_to64_rest();
    }
    let mut k: u64 = 0;
    let mut cc: u128 = c as u128;
    proof {
        assert(pow2(0) == 1);
    }
    while cc * 2 <= n as u128
        invariant
            1 <= c <= n,
            cc as int == c as int * pow2(k as nat) as int,
            1 <= cc <= n,
            k <= 63,
            ilog2_ratio(n as int, c as int) == k + ilog2_ratio(n as int, cc as int),
        decreases n as int - cc as int,
    {
        proof {
            if k == 63 {
                assert(pow2(63) == 0x8000000000000000) by {
                    lemma2_to64_rest();
                }
                assert(cc as int >= 0x8000000000000000) by (nonlinear_arith)
                    requires cc as int == c as int * pow2(63) as int, c as int >= 1,
                        pow2(63) == 0x8000000000000000;
                assert(false);
            }
            assert(pow2((k + 1) as nat) == 2 * pow2(k as nat)) by {
                vstd::arithmetic::power2::lemma_pow2_unfold((k + 1) as nat);
            }
            assert(c as int * pow2((k + 1) as nat) as int == 2 * (c as int * pow2(
                k as nat,
            ) as int)) by (nonlinear_arith)
                requires pow2((k + 1) as nat) == 2 * pow2(k as nat);
            assert(ilog2_ratio(n as int, cc as int) == 1 + ilog2_ratio(n as int, 2 * cc as int));
        }
        cc = cc * 2;
        k += 1;
    }
    proof {
        assert(ilog2_ratio(n as int, cc as int) == 0);
        assert(ilog2_ratio(n as int, c as int) == k);
    }
    let num: u128 = (n as u128) * 0x100000000;
    let x0: u128 = num / cc;
    proof {
        assert(cc * 0x100000000 <= num) by {
            lemma_mul_inequality(cc as int, n as int, 0x100000000);
        }
        assert(x0 >= 0x100000000) by {
            lemma_div_is_ordered(cc as int * 0x100000000, num as int, cc as int);
            lemma_div_multiples_vanish(0x100000000, cc as int);
        }
        assert(num < cc * 0x200000000) by (nonlinear_arith)
            requires (n as int) < 2 * (cc as int), num == (n as u128) * 0x100000000;
        assert(x0 < 0x200000000) by {
            lemma_multiply_divide_lt(num as int, cc as int, 0x200000000);
        }
        assert(x0 as int == start_mantissa(n as int, c as int));
    }
    let mut x: u64 = x0 as u64;
    let mut frac: u64 = 0;
    let mut j: u64 = 0;
    while j < 16
        invariant
            0 <= j <= 16,
            0x100000000 <= x < 0x200000000,
            x == mantissa_at(x0 as int, j as nat),
            frac == frac_bits(x0 as int, j as nat),
            frac < pow2(j as nat),
        decreases 16 - j,
    {
        proof {
            lemma2_to64();
            assert((x as int) * (x as int) < 0x40000000000000000) by (nonlinear_arith)
                requires (x as int) < 0x200000000;
            assert((x as int) * (x as int) >= 0x10000000000000000) by (nonlinear_arith)
                requires x as int >= 0x100000000;
        }
        let sq: u128 = ((x as u128) * (x as u128)) / 0x100000000;
        proof {
            assert(sq >= 0x100000000) by {
                lemma_div_is_ordered(
                    0x10000000000000000,
                    (x as int) * (x as int),
                    0x100000000,
                );
            }
            assert(sq < 0x400000000) by {
                assert(0x100000000 * 0x400000000 == 0x40000000000000000int) by (nonlinear_arith);
                lemma_multiply_divide_lt((x as int) * (x as int), 0x100000000, 0x400000000);
            }
        }
        frac = 2 * frac;
        if sq >= 0x200000000 {
            frac = frac + 1;
            x = (sq / 2) as u64;
        } else {
            x = sq as u64;
        }
        j += 1;
        proof {
            lemma2_to64();
            assert(pow2(j as nat) == 2 * pow2((j - 1) as nat)) by {
                vstd::arithmetic::power2::lemma_pow2_unfold(j as nat);
            }
        }
    }
    proof {
        lemma2_to64();
        assert(frac <= 65535);
        assert((1000 * frac as int) / 65536 <= 999) by {
            lemma_multiply_divide_lt(1000 * frac as int, 65536, 1000);
        }
        assert((1000 * frac as int) / 65536 >= 0) by {
            vstd::arithmetic::div_mod::lemma_div_pos_is_pos(1000 * frac as int, 65536);
        }
    }
    let r = k * 1000 + (frac * 1000) / 65536;
    r
}

/// Occurrences of the byte `b` in `s`.
pub open spec fn count_byte(s: Seq<u8>, b: u8) -> int
    decreases s.len(),
{
    if s.len() == 0 {
        0
    } else {
        count_byte(s.drop_last(), b) + if s.last() == b {
            1int
        } else {
            0int
        }
    }
}

/// The 256-entry histogram of `s`.
pub open spec fn hist_of(s: Seq<u8>) -> Seq<int> {
    Seq::new(256, |b: int| count_byte(s, b as u8))
}

/// Appending one byte raises exactly its own count.
proof fn lemma_count_push(s: Seq<u8>, x: u8, b: u8)
    ensures
        count_byte(s.push(x), b) == count_byte(s, b) + if x == b {
            1int
        } else {
            0int
        },
{
    assert(s.push(x).drop_last() =~= s);
    assert(s.push(x).last() == x);
}

/// A count never exceeds the length.
proof fn lemma_count_le_len(s: Seq<u8>, b: u8)
    ensures
        0 <= count_byte(s, b) <= s.len(),
    decreases s.len(),
{
    if s.len() > 0 {
        lemma_count_le_len(s.drop_last(), b);
    }
}

/// Sum of the first `b` histogram entries.
pub open spec fn hist_prefix_sum(h: Seq<int>, b: int) -> int
    decreases b,
{
    if b <= 0 {
        0
    } else {
        hist_prefix_sum(h, b - 1) + h[b - 1]
    }
}

proof fn lemma_hist_prefix_push(s: Seq<u8>, x: u8, b: int)
    requires
        0 <= b <= 256,
    ensures
        hist_prefix_sum(hist_of(s.push(x)), b) == hist_prefix_sum(hist_of(s), b) + if (x as int)
            < b {
            1int
        } else {
            0int
        },
    decreases b,
{
    if b > 0 {
        lemma_hist_prefix_push(s, x, b - 1);
        lemma_count_push(s, x, (b - 1) as u8);
    }
}

/// The histogram's entries add up to the sample's length.
pub proof fn lemma_hist_total(s: Seq<u8>)
    ensures
        hist_prefix_sum(hist_of(s), 256) == s.len(),
    decreases s.len(),
{
    if s.len() == 0 {
        lemma_hist_prefix_zero(s, 256);
    } else {
        let t = s.drop_last();
        lemma_hist_total(t);
        assert(t.push(s.last()) =~= s);
        lemma_hist_prefix_push(t, s.last(), 256);
    }
}

proof fn lemma_hist_prefix_zero(s: Seq<u8>, b: int)
    requires
        s.len() == 0,
        0 <= b <= 256,
    ensures
        hist_prefix_sum(hist_of(s), b) == 0,
    decreases b,
{
    if b > 0 {
        lemma_hist_prefix_zero(s, b - 1);
    }
}

/// Exact byte histogram of a sample.
pub fn byte_histogram(data: &Vec<u8>) -> (h: Vec<u64>)
    ensures
        h@.len() == 256,
        forall|b: int| 0 <= b < 256 ==> (#[trigger] h@[b]) as int == count_byte(data@, b as u8),
        forall|b: int| 0 <= b < 256 ==> (#[trigger] h@[b]) as int <= data@.len(),
{
    let mut h: Vec<u64> = Vec::new();
    let mut t: usize = 0;
    while t < 256
        invariant
            h@.len() == t,
            0 <= t <= 256,
            forall|b: int| 0 <= b < t ==> (#[trigger] h@[b]) == 0,
        decreases 256 - t,
    {
        h.push(0);
        t += 1;
    }
    proof {
        assert forall|b: int| 0 <= b < 256 implies (#[trigger] h@[b]) as int == count_byte(
            data@.subrange(0, 0),
            b as u8,
        ) by {
            assert(data@.subrange(0, 0).len() == 0);
        }
    }
    let n = data.len();
    let mut i: usize = 0;
    while i < n
        invariant
            h@.len() == 256,
            n == data@.len(),
            0 <= i <= n,
            forall|b: int| 0 <= b < 256 ==> (#[trigger] h@[b]) as int == count_byte(
                data@.subrange(0, i as int),
                b as u8,
            ),
            forall|b: int| 0 <= b < 256 ==> (#[trigger] h@[b]) as int <= i,
        decreases n - i,
    {
        let x = data[i];
        let idx = x as usize;
        let cur = h[idx];
        h.set(idx, cur + 1);
        proof {
            let prefix = data@.subrange(0, i as int);
            assert(data@.subrange(0, i as int + 1) =~= prefix.push(x));
            assert forall|b: int| 0 <= b < 256 implies (#[trigger] h@[b]) as int == count_byte(
                data@.subrange(0, i as int + 1),
                b as u8,
            ) by {
                lemma_count_push(prefix, x, b as u8);
            }
        }
        i += 1;
    }
    proof {
        assert(data@.subrange(0, n as int) =~= data@);
    }
    h
}

/// Sum of `h[b] * log2_milli(n, h[b])` over the first `b` entries with a
/// positive count.
pub open spec fn entropy_sum(h: Seq<int>, n: int, b: int) -> int
    decreases b,
{
    if b <= 0 {
        0
    } else {
        entropy_sum(h, n, b - 1) + if h[b - 1] > 0 {
            h[b - 1] * log2_milli(n, h[b - 1])
        } else {
            0int
        }
    }
}

/// Shannon entropy of the byte histogram, in milli-bits: the probability-
/// weighted fixed-point logarithm of each byte's inverse frequency,
/// divided by the length and clamped to the 8-bits-per-byte ceiling.
/// Shannon's bound makes the clamp vacuous on the real function; stating
/// it here makes the ceiling a theorem of this development rather than an
/// analytic aside.
pub open spec fn entropy_milli_spec(s: Seq<u8>) -> int {
    if s.len() == 0 {
        0
    } else {
        let raw = entropy_sum(hist_of(s), s.len() as int, 256) / (s.len() as int);
        if raw > 8000 {
            8000
        } else {
            raw
        }
    }
}

/// Shannon entropy of a sample in milli-bits (8000 means 8 bits/byte).
pub fn calculate_entropy(data: &Vec<u8>) -> (e: u64)
    ensures
        e as int == entropy_milli_spec(data@),
        e <= 8000,
{
    let n_usize = data.len();
    if n_usize == 0 {
        return 0;
    }
    let h = byte_histogram(data);
    let n: u64 = n_usize as u64;
    let mut acc: u128 = 0;
    let mut b: usize = 0;
    while b < 256
        invariant
            h@.len() == 256,
            n == data@.len(),
            n >= 1,
            forall|t: int| 0 <= t < 256 ==> (#[trigger] h@[t]) as int == count_byte(
                data@,
                t as u8,
            ),
            forall|t: int| 0 <= t < 256 ==> (#[trigger] h@[t]) as int <= data@.len(),
            0 <= b <= 256,
            acc as int == entropy_sum(hist_of(data@), n as int, b as int),
            acc as int <= 63999 * hist_prefix_sum(hist_of(data@), b as int),
            0 <= hist_prefix_sum(hist_of(data@), b as int) <= b * (n as int),
        decreases 256 - b,
    {
        let c = h[b];
        let ghost acc_old = acc as int;
        let ghost psum_old = hist_prefix_sum(hist_of(data@), b as int);
        if c > 0 {
            let lg = log2_ratio_milli(n, c);
            proof {
                assert((c as int) * (lg as int) <= (c as int) * 63999) by (nonlinear_arith)
                    requires 0 <= c as int, 0 <= lg as int <= 63999;
                assert(psum_old <= 256 * (n as int)) by (nonlinear_arith)
                    requires 0 <= psum_old, psum_old <= b * (n as int), 0 <= b <= 256,
                        n as int >= 0;
                assert(psum_old * 63999 <= 256 * (n as int) * 63999) by (nonlinear_arith)
                    requires 0 <= psum_old <= 256 * (n as int);
                assert(256 * (n as int) * 63999 < 0x100000000000000000000000000)
                    by (nonlinear_arith)
                    requires n as int <= 0xffffffffffffffff;
                assert(acc_old + (c as int) * (lg as int) <= 63999 * (psum_old + c as int))
                    by (nonlinear_arith)
                    requires
                        acc_old <= 63999 * psum_old,
                        (c as int) * (lg as int) <= (c as int) * 63999;
                assert(psum_old <= b * (n as int)) by (nonlinear_arith)
                    requires 0 <= psum_old <= b * (n as int);
            }
            acc = acc + (c as u128) * (lg as u128);
        }
        proof {
            assert(hist_of(data@)[b as int] == c as int);
            assert(acc as int == entropy_sum(hist_of(data@), n as int, b as int + 1));
            assert(hist_prefix_sum(hist_of(data@), b as int + 1) == psum_old + c as int);
            assert(acc as int <= 63999 * (psum_old + c as int)) by (nonlinear_arith)
                requires
                    acc as int == acc_old + (if c as int > 0 { acc as int - acc_old } else { 0int }),
                    acc_old <= 63999 * psum_old,
                    acc as int - acc_old <= (c as int) * 63999 || acc as int == acc_old,
                    c as int >= 0;
            assert(psum_old + c as int <= (b + 1) * (n as int)) by (nonlinear_arith)
                requires psum_old <= b * (n as int), 0 <= c as int <= n as int, b >= 0;
        }
        b += 1;
    }
    proof {
        lemma_hist_total(data@);
    }
    let e128: u128 = acc / (n as u128);
    proof {
        assert(acc as int <= (n as int) * 63999) by (nonlinear_arith)
            requires acc as int <= 63999 * (n as int);
        assert(e128 as int <= 63999) by {
            lemma_multiply_divide_le(acc as int, n as int, 63999int);
        }
    }
    if e128 > 8000 {
        8000
    } else {
        e128 as u64
    }
}

/// Sum of `(256*h[b] - n)^2` over the first `b` entries.
pub open spec fn chi_sum(h: Seq<int>, n: int, b: int) -> int
    decreases b,
{
    if b <= 0 {
        0
    } else {
        chi_sum(h, n, b - 1) + (256 * h[b - 1] - n) * (256 * h[b - 1] - n)
    }
}

/// Chi-square statistic against the uniform byte distribution, in
/// milli-units: `1000 * sum((o - n/256)^2 / (n/256))` computed exactly as
/// `1000 * sum((256*o - n)^2) / (256 * n)`.
pub open spec fn chi_square_milli_spec(s: Seq<u8>) -> int {
    if s.len() == 0 {
        0
    } else {
        1000 * chi_sum(hist_of(s), s.len() as int, 256) / (256 * s.len() as int)
    }
}

/// Chi-square statistic of a sample in milli-units (300000 = 300.0).
pub fn chi_square_test(data: &Vec<u8>) -> (x: u64)
    requires
        data@.len() < MAX_ANALYSIS_LEN,
    ensures
        x as int == chi_square_milli_spec(data@),
{
    let n_usize = data.len();
    if n_usize == 0 {
        return 0;
    }
    let h = byte_histogram(data);
    let n: u64 = n_usize as u64;
    let mut acc: u128 = 0;
    let mut b: usize = 0;
    while b < 256
        invariant
            h@.len() == 256,
            n == data@.len(),
            1 <= n < MAX_ANALYSIS_LEN,
            forall|t: int| 0 <= t < 256 ==> (#[trigger] h@[t]) as int == count_byte(
                data@,
                t as u8,
            ),
            forall|t: int| 0 <= t < 256 ==> (#[trigger] h@[t]) as int <= data@.len(),
            0 <= b <= 256,
            acc as int == chi_sum(hist_of(data@), n as int, b as int),
            acc as int <= 65536 * (n as int) * hist_prefix_sum(hist_of(data@), b as int) + b * (
            n as int) * (n as int),
            hist_prefix_sum(hist_of(data@), b as int) <= b * (n as int),
        decreases 256 - b,
    {
        let c = h[b];
        let ghost acc_old = acc as int;
        let ghost psum_old = hist_prefix_sum(hist_of(data@), b as int);
        let d: u128 = if (c as u128) * 256 >= n as u128 {
            (c as u128) * 256 - (n as u128)
        } else {
            (n as u128) - (c as u128) * 256
        };
        proof {
            assert(d as int * (d as int) == (256 * (c as int) - n as int) * (256 * (c as int)
                - n as int)) by (nonlinear_arith)
                requires
                    d as int == if 256 * (c as int) >= n as int {
                        256 * (c as int) - n as int
                    } else {
                        n as int - 256 * (c as int)
                    };
            assert(d as int <= 256 * (n as int)) by (nonlinear_arith)
                requires 0 <= c as int <= n as int,
                    d as int == if 256 * (c as int) >= n as int {
                        256 * (c as int) - n as int
                    } else {
                        n as int - 256 * (c as int)
                    };
            assert((d as int) * (d as int) <= 65536 * (c as int) * (n as int) + (n as int) * (
            n as int)) by (nonlinear_arith)
                requires
                    0 <= c as int <= n as int,
                    d as int * (d as int) == (256 * (c as int) - n as int) * (256 * (c as int)
                        - n as int);
            assert((d as int) * (d as int) < 0x10000000000000000000000000000) by (nonlinear_arith)
                requires 0 <= d as int <= 256 * (n as int), (n as int) < 0x100000000000;
            assert(acc_old <= 65536 * (n as int) * (256 * (n as int)) + 256 * (n as int) * (
            n as int)) by (nonlinear_arith)
                requires
                    acc_old <= 65536 * (n as int) * psum_old + b * (n as int) * (n as int),
                    psum_old <= b * (n as int),
                    0 <= b <= 256,
                    n as int >= 1;
            assert(65536 * (n as int) * (256 * (n as int)) + 256 * (n as int) * (n as int)
                < 0x20000000000000000000000000000) by (nonlinear_arith)
                requires 1 <= (n as int) < 0x100000000000;
        }
        acc = acc + d * d;
        proof {
            assert(hist_of(data@)[b as int] == c as int);
            assert(acc as int == chi_sum(hist_of(data@), n as int, b as int + 1));
            lemma_count_le_len(data@, b as u8);
            assert(hist_prefix_sum(hist_of(data@), b as int + 1) == psum_old + c as int);
            assert(acc as int <= 65536 * (n as int) * (psum_old + c as int) + (b + 1) * (n as int)
                * (n as int)) by (nonlinear_arith)
                requires
                    acc as int == acc_old + (d as int) * (d as int),
                    acc_old <= 65536 * (n as int) * psum_old + b * (n as int) * (n as int),
                    (d as int) * (d as int) <= 65536 * (c as int) * (n as int) + (n as int) * (
                    n as int),
                    n as int >= 1,
                    c as int >= 0,
                    b >= 0;
            assert(psum_old + c as int <= (b + 1) * (n as int)) by (nonlinear_arith)
                requires psum_old <= b * (n as int), c as int <= n as int, b >= 0;
        }
        b += 1;
    }
    proof {
        lemma_hist_total(data@);
        assert(acc as int <= 65536 * (n as int) * (n as int) + 256 * (n as int) * (n as int));
        assert(1000 * acc as int <= (256 * (n as int)) * (257000 * (n as int)))
            by (nonlinear_arith)
            requires acc as int <= 65536 * (n as int) * (n as int) + 256 * (n as int) * (n as int),
                n as int >= 1;
        assert((1000 * acc as int) / (256 * n as int) <= 257000 * (n as int)) by {
            lemma_multiply_divide_le(1000 * acc as int, 256 * n as int, 257000 * (n as int));
        }
        assert(257000 * (n as int) < 0x10000000000000000) by (nonlinear_arith)
            requires (n as int) < 0x100000000000;
        assert(1000 * (acc as int) < 0x100000000000000000000000000000000) by (nonlinear_arith)
            requires acc as int <= 65536 * (n as int) * (n as int) + 256 * (n as int) * (n as int),
                1 <= (n as int) < 0x100000000000;
    }
    let x128: u128 = (1000 * acc) / (256 * (n as u128));
    x128 as u64
}


/// The mantissa pipeline is stationary at exactly `2^32`, so a power-of-
/// two ratio has no fractional digits.
proof fn lemma_mantissa_one(j: nat)
    ensures
        mantissa_at(0x100000000, j) == 0x100000000,
        frac_bits(0x100000000, j) == 0,
    decreases j,
{
    if j > 0 {
        lemma_mantissa_one((j - 1) as nat);
    }
}

/// `log2_milli(n, n) == 0`: a ratio of one has no integer or fraction
/// part.
pub proof fn lemma_log2_milli_self(n: int)
    requires
        n >= 1,
    ensures
        log2_milli(n, n) == 0,
{
    assert(ilog2_ratio(n, n) == 0);
    assert(pow2(0) == 1) by {
        lemma2_to64();
    }
    assert(n * pow2(0) as int == n) by (nonlinear_arith)
        requires pow2(0) == 1;
    assert(start_mantissa(n, n) == (n * 0x100000000) / n);
    assert((n * 0x100000000) / n == 0x100000000) by {
        vstd::arithmetic::mul::lemma_mul_is_commutative(n, 0x100000000);
        lemma_div_multiples_vanish(0x100000000, n);
    }
    lemma_mantissa_one(16);
}

/// `log2_milli(256 * k, k) == 8000`: a ratio of 256 is exactly 8 bits.
pub proof fn lemma_log2_milli_256(k: int)
    requires
        k >= 1,
    ensures
        log2_milli(256 * k, k) == 8000,
{
    let n = 256 * k;
    assert(ilog2_ratio(n, k) == 8) by {
        assert(ilog2_ratio(n, 256 * k) == 0);
        assert(ilog2_ratio(n, 128 * k) == 1) by {
            assert(2 * (128 * k) == 256 * k);
        }
        assert(ilog2_ratio(n, 64 * k) == 2) by {
            assert(2 * (64 * k) == 128 * k);
        }
        assert(ilog2_ratio(n, 32 * k) == 3) by {
            assert(2 * (32 * k) == 64 * k);
        }
        assert(ilog2_ratio(n, 16 * k) == 4) by {
            assert(2 * (16 * k) == 32 * k);
        }
        assert(ilog2_ratio(n, 8 * k) == 5) by {
            assert(2 * (8 * k) == 16 * k);
        }
        assert(ilog2_ratio(n, 4 * k) == 6) by {
            assert(2 * (4 * k) == 8 * k);
        }
        assert(ilog2_ratio(n, 2 * k) == 7) by {
            assert(2 * (2 * k) == 4 * k);
        }
        assert(ilog2_ratio(n, k) == 8) by {
            assert(2 * k <= n);
        }
    }
    assert(pow2(8) == 256) by {
        lemma2_to64();
    }
    assert(k * pow2(8) as int == 256 * k) by (nonlinear_arith)
        requires pow2(8) == 256;
    assert(start_mantissa(n, k) == (n * 0x100000000) / (256 * k));
    assert((n * 0x100000000) / (256 * k) == 0x100000000) by {
        assert(n * 0x100000000 == (256 * k) * 0x100000000) by (nonlinear_arith)
            requires n == 256 * k;
        vstd::arithmetic::mul::lemma_mul_is_commutative(256 * k, 0x100000000);
        lemma_div_multiples_vanish(0x100000000, 256 * k);
    }
    lemma_mantissa_one(16);
}

/// In all-constant data, only the constant's counter is ever raised.
proof fn lemma_count_constant(s: Seq<u8>, b0: u8, b: u8)
    requires
        forall|i: int| 0 <= i < s.len() ==> s[i] == b0,
    ensures
        count_byte(s, b) == if b == b0 {
            s.len() as int
        } else {
            0int
        },
    decreases s.len(),
{
    if s.len() > 0 {
        assert(forall|i: int| 0 <= i < s.drop_last().len() ==> s.drop_last()[i] == b0);
        lemma_count_constant(s.drop_last(), b0, b);
        assert(s.last() == b0);
    }
}

/// The entropy sum of a one-spike histogram is the spike's own term.
proof fn lemma_entropy_sum_spike(h: Seq<int>, n: int, b: int, b0: int)
    requires
        0 <= b <= 256,
        0 <= b0 < 256,
        h.len() == 256,
        h[b0] == n,
        n >= 1,
        forall|t: int| 0 <= t < 256 && t != b0 ==> h[t] == 0,
    ensures
        entropy_sum(h, n, b) == if b0 < b {
            n * log2_milli(n, n)
        } else {
            0int
        },
    decreases b,
{
    if b > 0 {
        lemma_entropy_sum_spike(h, n, b - 1, b0);
    }
}

/// Shannon entropy of constant data is exactly zero: a single byte value
/// carries no information.
pub proof fn lemma_entropy_constant(s: Seq<u8>, b0: u8)
    requires
        s.len() >= 1,
        forall|i: int| 0 <= i < s.len() ==> s[i] == b0,
    ensures
        entropy_milli_spec(s) == 0,
{
    let n = s.len() as int;
    let h = hist_of(s);
    assert forall|t: int| 0 <= t < 256 && t != b0 as int implies h[t] == 0 by {
        lemma_count_constant(s, b0, t as u8);
    }
    assert(h[b0 as int] == n) by {
        lemma_count_constant(s, b0, b0);
    }
    lemma_entropy_sum_spike(h, n, 256, b0 as int);
    lemma_log2_milli_self(n);
    assert(entropy_sum(h, n, 256) == 0) by (nonlinear_arith)
        requires entropy_sum(h, n, 256) == n * log2_milli(n, n), log2_milli(n, n) == 0;
    assert(entropy_milli_spec(s) == 0int / n);
    assert(0int / n == 0) by {
        vstd::arithmetic::div_mod::lemma_div_of0(n);
    }
}

/// Flat-histogram prefix sums grow by `k` an entry.
proof fn lemma_prefix_sum_const(h: Seq<int>, k: int, b: int)
    requires
        0 <= b <= 256,
        h.len() == 256,
        forall|t: int| 0 <= t < 256 ==> h[t] == k,
    ensures
        hist_prefix_sum(h, b) == b * k,
    decreases b,
{
    if b > 0 {
        lemma_prefix_sum_const(h, k, b - 1);
        assert(h[b - 1] == k);
        assert(hist_prefix_sum(h, b) == hist_prefix_sum(h, b - 1) + h[b - 1]);
        assert(b * k == (b - 1) * k + k) by (nonlinear_arith);
    } else {
        assert(b * k == 0) by (nonlinear_arith)
            requires b == 0;
    }
}

/// The entropy sum of a flat histogram is one term per entry.
proof fn lemma_entropy_sum_const(h: Seq<int>, n: int, k: int, b: int)
    requires
        0 <= b <= 256,
        h.len() == 256,
        k >= 1,
        forall|t: int| 0 <= t < 256 ==> h[t] == k,
    ensures
        entropy_sum(h, n, b) == b * (k * log2_milli(n, k)),
    decreases b,
{
    if b > 0 {
        lemma_entropy_sum_const(h, n, k, b - 1);
        assert(h[b - 1] == k);
        assert(entropy_sum(h, n, b) == entropy_sum(h, n, b - 1) + k * log2_milli(n, k));
        assert(b * (k * log2_milli(n, k)) == (b - 1) * (k * log2_milli(n, k)) + k * log2_milli(
            n,
            k,
        )) by (nonlinear_arith);
    } else {
        assert(b * (k * log2_milli(n, k)) == 0) by (nonlinear_arith)
            requires b == 0;
    }
}

/// Shannon entropy of a perfectly uniform sample, each of the 256 byte
/// values occurring exactly `k` times, is exactly 8 bits per byte.
pub proof fn lemma_entropy_uniform(s: Seq<u8>, k: int)
    requires
        k >= 1,
        forall|b: u8| #[trigger] count_byte(s, b) == k,
    ensures
        s.len() == 256 * k,
        entropy_milli_spec(s) == 8000,
{
    let h = hist_of(s);
    assert(forall|t: int| 0 <= t < 256 ==> h[t] == k);
    lemma_hist_total(s);
    lemma_prefix_sum_const(h, k, 256);
    assert(s.len() == 256 * k);
    let n = 256 * k;
    lemma_log2_milli_256(k);
    lemma_entropy_sum_const(h, n, k, 256);
    assert(entropy_sum(h, n, 256) == 256 * (k * 8000)) by (nonlinear_arith)
        requires entropy_sum(h, n, 256) == 256 * (k * log2_milli(n, k)), log2_milli(n, k)
            == 8000;
    assert(entropy_sum(h, n, 256) == n * 8000) by (nonlinear_arith)
        requires entropy_sum(h, n, 256) == 256 * (k * 8000), n == 256 * k;
    assert((n * 8000) / n == 8000) by {
        vstd::arithmetic::mul::lemma_mul_is_commutative(n, 8000);
        lemma_div_multiples_vanish(8000, n);
    }
    assert(n >= 1) by (nonlinear_arith)
        requires k >= 1, n == 256 * k;
}

} // verus!
