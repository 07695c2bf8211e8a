//! Verified byte-string utilities shared by the parsers: substring search,
//! digit parsing, case folding and whitespace handling over `Vec<u8>`.

use vstd::prelude::*;

verus! {

/// The needle `n` occurs in `h` starting at position `i`.
pub open spec fn matches_at(h: Seq<u8>, n: Seq<u8>, i: int) -> bool {
    &&& 0 <= i
    &&& i + n.len() <= h.len()
    &&& forall|j: int| 0 <= j < n.len() ==> h[i + j] == n[j]
}

/// The needle occurs somewhere in the haystack.
pub open spec fn contains_seq(h: Seq<u8>, n: Seq<u8>) -> bool {
    exists|i: int| matches_at(h, n, i)
}

/// Compare the needle against the haystack at position `i`.
fn check_match(h: &Vec<u8>, n: &Vec<u8>, i: usize) -> (r: bool)
    requires
        i + n@.len() <= h@.len(),
    ensures
        r == matches_at(h@, n@, i as int),
{
    let hl: usize = h.len();
    let mut j: usize = 0;
    while j < n.len()
        invariant
            0 <= j <= n@.len(),
            i + n@.len() <= h@.len(),
            hl == h@.len(),
            forall|k: int| 0 <= k < j ==> h@[i + k] == n@[k],
        decreases n@.len() - j,
    {
        if h[i + j] != n[j] {
            return false;
        }
        j += 1;
    }
    true
}

/// First position at which the needle occurs, if any.
pub fn find_sub(h: &Vec<u8>, n: &Vec<u8>) -> (r: Option<usize>)
    ensures
        match r {
            Some(i) => matches_at(h@, n@, i as int) && forall|k: int|
                0 <= k < i ==> !matches_at(h@, n@, k),
            None => !contains_seq(h@, n@),
        },
{
    if n.len() > h.len() {
        return None;
    }
    let mut i: usize = 0;
    let last: usize = h.len() - n.len();
    loop
        invariant
            n@.len() <= h@.len(),
            last == h@.len() - n@.len(),
            0 <= i <= last,
            forall|k: int| 0 <= k < i ==> !matches_at(h@, n@, k),
        ensures
            forall|k: int| 0 <= k <= last ==> !matches_at(h@, n@, k),
        decreases last - i,
    {
        if check_match(h, n, i) {
            return Some(i);
        }
        if i == last {
            break;
        }
        i += 1;
    }
    assert forall|k: int| !matches_at(h@, n@, k) by {
        if matches_at(h@, n@, k) {
            assert(0 <= k <= last);
        }
    }
    None
}

/// Whether the needle occurs in the haystack.
pub fn contains_sub(h: &Vec<u8>, n: &Vec<u8>) -> (r: bool)
    ensures
        r == contains_seq(h@, n@),
{
    find_sub(h, n).is_some()
}

/// First position of the byte `b` at or after `start`: exactly
/// [`find_from`], as an option.
pub fn find_byte_from(h: &Vec<u8>, b: u8, start: usize) -> (r: Option<usize>)
    requires
        start <= h@.len(),
    ensures
        match r {
            Some(i) => i as int == find_from(h@, b, start as int) && i < h@.len(),
            None => find_from(h@, b, start as int) == h@.len(),
        },
{
    let n = h.len();
    let mut i: usize = start;
    while i < n
        invariant
            start <= i <= n,
            n == h@.len(),
            find_from(h@, b, start as int) == find_from(h@, b, i as int),
        decreases n - i,
    {
        if h[i] == b {
            return Some(i);
        }
        i += 1;
    }
    None
}

/// First position of the byte `b`, if present.
pub fn find_byte(h: &Vec<u8>, b: u8) -> (r: Option<usize>)
    ensures
        match r {
            Some(i) => i < h@.len() && h@[i as int] == b && forall|k: int|
                0 <= k < i ==> h@[k] != b,
            None => forall|k: int| 0 <= k < h@.len() ==> h@[k] != b,
        },
{
    let mut i: usize = 0;
    while i < h.len()
        invariant
            0 <= i <= h@.len(),
            forall|k: int| 0 <= k < i ==> h@[k] != b,
        decreases h@.len() - i,
    {
        if h[i] == b {
            return Some(i);
        }
        i += 1;
    }
    None
}

/// Copy of `v[from..to]`.
pub fn subvec(v: &Vec<u8>, from: usize, to: usize) -> (r: Vec<u8>)
    requires
        from <= to <= v@.len(),
    ensures
        r@ == v@.subrange(from as int, to as int),
{
    let mut r: Vec<u8> = Vec::new();
    let mut i: usize = from;
    while i < to
        invariant
            from <= i <= to <= v@.len(),
            r@ == v@.subrange(from as int, i as int),
        decreases to - i,
    {
        r.push(v[i]);
        i += 1;
        assert(r@ =~= v@.subrange(from as int, i as int));
    }
    r
}

/// ASCII decimal digit.
pub open spec fn is_digit(b: u8) -> bool {
    0x30 <= b <= 0x39
}

/// ASCII space, tab or carriage return.
pub open spec fn is_space(b: u8) -> bool {
    b == 0x20 || b == 0x09 || b == 0x0d
}

/// Numeric value of a digit sequence read most-significant first, as an
/// unbounded integer.
pub open spec fn digits_value(s: Seq<u8>) -> int
    decreases s.len(),
{
    if s.len() == 0 {
        0
    } else {
        digits_value(s.drop_last()) * 10 + (s.last() - 0x30)
    }
}

/// All bytes of `s` are ASCII digits.
pub open spec fn all_digits(s: Seq<u8>) -> bool {
    forall|i: int| 0 <= i < s.len() ==> is_digit(#[trigger] s[i])
}

/// What decimal parsing yields: the value of a non-empty all-digit
/// string that fits in `u64`, nothing otherwise.
pub open spec fn parse_u64_spec(v: Seq<u8>) -> Option<int> {
    if v.len() > 0 && all_digits(v) && digits_value(v) <= u64::MAX {
        Some(digits_value(v))
    } else {
        None
    }
}

/// The integer view of an optional machine word.
pub open spec fn opt_int(r: Option<u64>) -> Option<int> {
    match r {
        Some(x) => Some(x as int),
        None => None,
    }
}

/// ASCII lower-casing of a byte sequence.
pub open spec fn lower_seq(s: Seq<u8>) -> Seq<u8> {
    Seq::new(s.len(), |i: int| lower_byte(s[i]))
}

/// Parse an unsigned decimal number; `None` on empty input, a non-digit,
/// or a value that does not fit in `u64`.
pub fn parse_u64(v: &Vec<u8>) -> (r: Option<u64>)
    ensures
        opt_int(r) == parse_u64_spec(v@),
        match r {
            Some(x) => v@.len() > 0 && all_digits(v@) && x == digits_value(v@)
                && digits_value(v@) <= u64::MAX,
            None => v@.len() == 0 || !all_digits(v@) || digits_value(v@) > u64::MAX,
        },
{
    if v.len() == 0 {
        return None;
    }
    let mut acc: u64 = 0;
    let mut i: usize = 0;
    while i < v.len()
        invariant
            0 <= i <= v@.len(),
            all_digits(v@.subrange(0, i as int)),
            acc == digits_value(v@.subrange(0, i as int)),
        decreases v@.len() - i,
    {
        let b = v[i];
        if !(0x30 <= b && b <= 0x39) {
            assert(!all_digits(v@)) by {
                assert(!is_digit(v@[i as int]));
            }
            return None;
        }
        let d: u64 = (b - 0x30) as u64;
        let limit: u64 = u64::MAX / 10;
        if acc > limit || (acc == limit && d > u64::MAX % 10) {
            proof {
                assert(v@.subrange(0, i as int + 1).drop_last() =~= v@.subrange(0, i as int));
                assert(v@.subrange(0, i as int + 1).last() == b);
                assert(digits_value(v@.subrange(0, i as int + 1)) > u64::MAX);
                if all_digits(v@) {
                    lemma_digits_value_prefix(v@, i as int + 1);
                }
            }
            return None;
        }
        let ghost prefix = v@.subrange(0, i as int);
        acc = acc * 10 + d;
        i += 1;
        assert(v@.subrange(0, i as int).drop_last() =~= prefix);
        assert(v@.subrange(0, i as int).last() == b);
    }
    assert(v@.subrange(0, v@.len() as int) =~= v@);
    Some(acc)
}

/// An all-digit string has a non-negative value.
proof fn lemma_digits_value_nonneg(s: Seq<u8>)
    requires
        all_digits(s),
    ensures
        digits_value(s) >= 0,
    decreases s.len(),
{
    if s.len() > 0 {
        assert(all_digits(s.drop_last())) by {
            assert(forall|i: int| 0 <= i < s.len() - 1 ==> s.drop_last()[i] == s[i]);
        }
        lemma_digits_value_nonneg(s.drop_last());
        assert(is_digit(s.last()));
    }
}

/// For an all-digit string, a longer prefix is worth at least as much.
proof fn lemma_digits_value_prefix(s: Seq<u8>, k: int)
    requires
        0 <= k <= s.len(),
        all_digits(s),
    ensures
        digits_value(s) >= digits_value(s.subrange(0, k)),
    decreases s.len() - k,
{
    if k < s.len() {
        lemma_digits_value_prefix(s, k + 1);
        assert(s.subrange(0, k + 1).drop_last() =~= s.subrange(0, k));
        assert(all_digits(s.subrange(0, k))) by {
            assert(forall|i: int| 0 <= i < k ==> s.subrange(0, k)[i] == s[i]);
        }
        lemma_digits_value_nonneg(s.subrange(0, k));
        assert(is_digit(s.subrange(0, k + 1).last()));
        assert(digits_value(s.subrange(0, k + 1)) >= digits_value(s.subrange(0, k)));
    } else {
        assert(s.subrange(0, k) =~= s);
    }
}

/// ASCII lower-casing of a single byte.
pub open spec fn lower_byte(b: u8) -> u8 {
    if 0x41 <= b <= 0x5a {
        (b + 0x20) as u8
    } else {
        b
    }
}

/// ASCII-lower-case every byte.
pub fn to_lower(v: &Vec<u8>) -> (r: Vec<u8>)
    ensures
        r@ == lower_seq(v@),
        r@.len() == v@.len(),
        forall|i: int| 0 <= i < v@.len() ==> r@[i] == lower_byte(#[trigger] v@[i]),
{
    let mut r: Vec<u8> = Vec::new();
    let mut i: usize = 0;
    while i < v.len()
        invariant
            0 <= i <= v@.len(),
            r@.len() == i,
            forall|k: int| 0 <= k < i ==> r@[k] == lower_byte(#[trigger] v@[k]),
        decreases v@.len() - i,
    {
        let b = v[i];
        if 0x41 <= b && b <= 0x5a {
            r.push(b + 0x20);
        } else {
            r.push(b);
        }
        i += 1;
    }
    assert(r@ =~= lower_seq(v@));
    r
}


/// Index of the first occurrence of `b` at or after `start`, or the
/// length when there is none.
pub open spec fn find_from(s: Seq<u8>, b: u8, start: int) -> int
    decreases s.len() - start,
        when 0 <= start <= s.len()
{
    if start >= s.len() {
        s.len() as int
    } else if s[start] == b {
        start
    } else {
        find_from(s, b, start + 1)
    }
}

/// Index of the first match of the needle at or after `start`, or one
/// past the length when there is none.
pub open spec fn find_sub_from(h: Seq<u8>, n: Seq<u8>, start: int) -> int
    decreases h.len() - start,
        when 0 <= start
{
    if start + n.len() > h.len() {
        h.len() as int + 1
    } else if matches_at(h, n, start) {
        start
    } else {
        find_sub_from(h, n, start + 1)
    }
}

/// What [`find_from`] returns: the position of the first hit.
pub proof fn lemma_find_from(s: Seq<u8>, b: u8, start: int)
    requires
        0 <= start <= s.len(),
    ensures
        start <= find_from(s, b, start) <= s.len(),
        find_from(s, b, start) < s.len() ==> s[find_from(s, b, start)] == b,
        forall|k: int| start <= k < find_from(s, b, start) ==> s[k] != b,
    decreases s.len() - start,
{
    if start < s.len() && s[start] != b {
        lemma_find_from(s, b, start + 1);
    }
}

/// What [`find_sub_from`] returns: the position of the first match, or
/// the sentinel one past the end.
pub proof fn lemma_find_sub_from(h: Seq<u8>, n: Seq<u8>, start: int)
    requires
        0 <= start <= h.len() + 1,
    ensures
        start <= find_sub_from(h, n, start) <= h.len() + 1,
        find_sub_from(h, n, start) <= h.len() ==> matches_at(h, n, find_sub_from(h, n, start)),
        forall|k: int| start <= k < find_sub_from(h, n, start) ==> !matches_at(h, n, k),
        find_sub_from(h, n, start) == h.len() + 1 ==> forall|k: int|
            start <= k ==> !matches_at(h, n, k),
    decreases h.len() - start,
{
    if start + n.len() <= h.len() && !matches_at(h, n, start) {
        lemma_find_sub_from(h, n, start + 1);
    }
}

/// The lines of `s` split on newline bytes, read from position `i`
/// onward with `cur` the partial line collected so far; a trailing empty
/// segment is dropped.
pub open spec fn lines_acc(s: Seq<u8>, i: int, cur: Seq<u8>) -> Seq<Seq<u8>>
    decreases s.len() - i,
        when 0 <= i <= s.len()
{
    if i >= s.len() {
        if cur.len() > 0 {
            seq![cur]
        } else {
            Seq::empty()
        }
    } else if s[i] == 0x0a {
        seq![cur] + lines_acc(s, i + 1, Seq::empty())
    } else {
        lines_acc(s, i + 1, cur.push(s[i]))
    }
}

/// The lines of `s`.
pub open spec fn lines_spec(s: Seq<u8>) -> Seq<Seq<u8>> {
    lines_acc(s, 0, Seq::empty())
}

/// The whitespace-separated tokens of `s`, read from position `i` onward
/// with `cur` the partial token collected so far.
pub open spec fn tokens_acc(s: Seq<u8>, i: int, cur: Seq<u8>) -> Seq<Seq<u8>>
    decreases s.len() - i,
        when 0 <= i <= s.len()
{
    if i >= s.len() {
        if cur.len() > 0 {
            seq![cur]
        } else {
            Seq::empty()
        }
    } else if is_space(s[i]) {
        (if cur.len() > 0 {
            seq![cur]
        } else {
            Seq::empty()
        }) + tokens_acc(s, i + 1, Seq::empty())
    } else {
        tokens_acc(s, i + 1, cur.push(s[i]))
    }
}

/// The whitespace-separated tokens of `s`.
pub open spec fn tokens_spec(s: Seq<u8>) -> Seq<Seq<u8>> {
    tokens_acc(s, 0, Seq::empty())
}

/// First non-space position at or after `i`.
pub open spec fn skip_leading(s: Seq<u8>, i: int) -> int
    decreases s.len() - i,
        when 0 <= i <= s.len()
{
    if i < s.len() && is_space(s[i]) {
        skip_leading(s, i + 1)
    } else {
        i
    }
}

/// Last position `> lo` whose predecessor is not a space, scanning down
/// from `j`.
pub open spec fn skip_trailing(s: Seq<u8>, j: int, lo: int) -> int
    decreases j,
        when 0 <= lo <= j <= s.len()
{
    if j > lo && is_space(s[j - 1]) {
        skip_trailing(s, j - 1, lo)
    } else {
        j
    }
}

/// `s` without leading or trailing spaces, tabs and carriage returns.
pub open spec fn trim_spec(s: Seq<u8>) -> Seq<u8> {
    let a = skip_leading(s, 0);
    s.subrange(a, skip_trailing(s, s.len() as int, a))
}

/// The view of a split result.
pub open spec fn pieces_view(r: Seq<Vec<u8>>) -> Seq<Seq<u8>> {
    r.map_values(|p: Vec<u8>| p@)
}

/// A piece that occurs contiguously inside `v`.
pub open spec fn is_slice_of(piece: Seq<u8>, v: Seq<u8>) -> bool {
    exists|a: int| #![trigger matches_at(v, piece, a)] matches_at(v, piece, a)
}

/// Split on newline bytes: the result is exactly [`lines_spec`]; the
/// separators are not part of any piece, and every piece occurs
/// contiguously in the input.
pub fn split_lines(v: &Vec<u8>) -> (r: Vec<Vec<u8>>)
    ensures
        pieces_view(r@) == lines_spec(v@),
        forall|i: int| #![trigger r@[i]] 0 <= i < r@.len() ==> forall|j: int|
            0 <= j < r@[i]@.len() ==> (#[trigger] r@[i]@[j]) != 0x0a,
        forall|i: int| #![trigger r@[i]] 0 <= i < r@.len() ==> is_slice_of(r@[i]@, v@),
{
    let mut r: Vec<Vec<u8>> = Vec::new();
    let mut cur: Vec<u8> = Vec::new();
    let mut i: usize = 0;
    let ghost mut start: int = 0;
    while i < v.len()
        invariant
            0 <= start <= i <= v@.len(),
            cur@ == v@.subrange(start, i as int),
            lines_spec(v@) == pieces_view(r@) + lines_acc(v@, i as int, cur@),
            forall|a: int| #![trigger r@[a]] 0 <= a < r@.len() ==> forall|j: int|
                0 <= j < r@[a]@.len() ==> (#[trigger] r@[a]@[j]) != 0x0a,
            forall|a: int| #![trigger r@[a]] 0 <= a < r@.len() ==> is_slice_of(r@[a]@, v@),
            forall|j: int| 0 <= j < cur@.len() ==> (#[trigger] cur@[j]) != 0x0a,
        decreases v@.len() - i,
    {
        let b = v[i];
        let ghost old_r = r@;
        let ghost old_cur = cur@;
        if b == 0x0a {
            proof {
                assert(is_slice_of(cur@, v@)) by {
                    assert(matches_at(v@, cur@, start));
                }
            }
            r.push(cur);
            cur = Vec::new();
            proof {
                start = i + 1;
                assert(cur@ =~= Seq::<u8>::empty());
                assert(lines_acc(v@, i as int, old_cur) == seq![old_cur] + lines_acc(
                    v@,
                    i + 1,
                    Seq::empty(),
                ));
                assert(pieces_view(r@) =~= pieces_view(old_r) + seq![old_cur]);
                assert(pieces_view(old_r) + lines_acc(v@, i as int, old_cur) =~= pieces_view(r@)
                    + lines_acc(v@, i + 1, cur@));
            }
        } else {
            cur.push(b);
            proof {
                assert(lines_acc(v@, i as int, old_cur) == lines_acc(
                    v@,
                    i + 1,
                    old_cur.push(b),
                ));
            }
        }
        i += 1;
        assert(cur@ =~= v@.subrange(start, i as int));
    }
    if cur.len() > 0 {
        proof {
            assert(is_slice_of(cur@, v@)) by {
                assert(matches_at(v@, cur@, start));
            }
            assert(lines_acc(v@, i as int, cur@) == seq![cur@]);
        }
        let ghost old_r = r@;
        r.push(cur);
        proof {
            assert(pieces_view(r@) =~= pieces_view(old_r) + seq![r@[r@.len() - 1]@]);
        }
    } else {
        proof {
            assert(lines_acc(v@, i as int, cur@) =~= Seq::<Seq<u8>>::empty());
            assert(pieces_view(r@) + lines_acc(v@, i as int, cur@) =~= pieces_view(r@));
        }
    }
    r
}

/// Split on runs of spaces, tabs and carriage returns: the result is
/// exactly [`tokens_spec`]; every piece is non-empty and free of
/// whitespace.
pub fn split_whitespace(v: &Vec<u8>) -> (r: Vec<Vec<u8>>)
    ensures
        pieces_view(r@) == tokens_spec(v@),
        forall|i: int| #![trigger r@[i]] 0 <= i < r@.len() ==> r@[i]@.len() > 0,
        forall|i: int| #![trigger r@[i]] 0 <= i < r@.len() ==> forall|j: int|
            0 <= j < r@[i]@.len() ==> !is_space(#[trigger] r@[i]@[j]),
{
    let mut r: Vec<Vec<u8>> = Vec::new();
    let mut cur: Vec<u8> = Vec::new();
    let mut i: usize = 0;
    while i < v.len()
        invariant
            0 <= i <= v@.len(),
            tokens_spec(v@) == pieces_view(r@) + tokens_acc(v@, i as int, cur@),
            forall|a: int| #![trigger r@[a]] 0 <= a < r@.len() ==> r@[a]@.len() > 0,
            forall|a: int| #![trigger r@[a]] 0 <= a < r@.len() ==> forall|j: int|
                0 <= j < r@[a]@.len() ==> !is_space(#[trigger] r@[a]@[j]),
            forall|j: int| 0 <= j < cur@.len() ==> !is_space(#[trigger] cur@[j]),
        decreases v@.len() - i,
    {
        let b = v[i];
        let ghost old_r = r@;
        let ghost old_cur = cur@;
        if b == 0x20 || b == 0x09 || b == 0x0d {
            proof {
                assert(is_space(v@[i as int]));
                assert(tokens_acc(v@, i as int, old_cur) == (if old_cur.len() > 0 {
                    seq![old_cur]
                } else {
                    Seq::<Seq<u8>>::empty()
                }) + tokens_acc(v@, i + 1, Seq::empty()));
            }
            if cur.len() > 0 {
                r.push(cur);
                cur = Vec::new();
                proof {
                    assert(cur@ =~= Seq::<u8>::empty());
                    assert(tokens_acc(v@, i as int, old_cur) == seq![old_cur] + tokens_acc(
                        v@,
                        i + 1,
                        Seq::empty(),
                    ));
                    assert(tokens_acc(v@, i + 1, cur@) == tokens_acc(v@, i + 1, Seq::empty()));
                    assert(pieces_view(r@) =~= pieces_view(old_r) + seq![old_cur]);
                    assert(pieces_view(old_r) + (seq![old_cur] + tokens_acc(
                        v@,
                        i + 1,
                        Seq::empty(),
                    )) =~= (pieces_view(old_r) + seq![old_cur]) + tokens_acc(
                        v@,
                        i + 1,
                        Seq::empty(),
                    ));
                    assert(pieces_view(r@) + tokens_acc(v@, i + 1, cur@) == (pieces_view(
                        old_r,
                    ) + seq![old_cur]) + tokens_acc(v@, i + 1, Seq::empty()));
                    assert(pieces_view(old_r) + tokens_acc(v@, i as int, old_cur)
                        == pieces_view(r@) + tokens_acc(v@, i + 1, cur@));
                }
            } else {
                proof {
                    assert(cur@ =~= Seq::<u8>::empty());
                    assert(tokens_acc(v@, i as int, old_cur) =~= tokens_acc(
                        v@,
                        i + 1,
                        Seq::empty(),
                    ));
                    assert(pieces_view(old_r) + tokens_acc(v@, i as int, old_cur)
                        =~= pieces_view(r@) + tokens_acc(v@, i + 1, cur@));
                }
            }
        } else {
            cur.push(b);
            proof {
                assert(!is_space(v@[i as int]));
                assert(tokens_acc(v@, i as int, old_cur) == tokens_acc(
                    v@,
                    i + 1,
                    old_cur.push(b),
                ));
            }
        }
        i += 1;
    }
    if cur.len() > 0 {
        proof {
            assert(tokens_acc(v@, i as int, cur@) == seq![cur@]);
        }
        let ghost old_r = r@;
        r.push(cur);
        proof {
            assert(pieces_view(r@) =~= pieces_view(old_r) + seq![r@[r@.len() - 1]@]);
        }
    } else {
        proof {
            assert(tokens_acc(v@, i as int, cur@) =~= Seq::<Seq<u8>>::empty());
            assert(pieces_view(r@) + tokens_acc(v@, i as int, cur@) =~= pieces_view(r@));
        }
    }
    r
}

/// Runtime test for [`is_space`].
pub fn is_space_byte(b: u8) -> (r: bool)
    ensures
        r == is_space(b),
{
    b == 0x20 || b == 0x09 || b == 0x0d
}

/// Drop leading and trailing spaces, tabs and carriage returns: the
/// result is exactly [`trim_spec`].
pub fn trim_spaces(v: &Vec<u8>) -> (r: Vec<u8>)
    ensures
        r@ == trim_spec(v@),
        r@.len() <= v@.len(),
        r@.len() > 0 ==> !is_space(r@[0]) && !is_space(r@[r@.len() - 1]),
{
    let mut start: usize = 0;
    while start < v.len()
        invariant
            0 <= start <= v@.len(),
            skip_leading(v@, 0) == skip_leading(v@, start as int),
        ensures
            0 <= start <= v@.len(),
            start < v@.len() ==> !is_space(v@[start as int]),
            skip_leading(v@, 0) == start,
        decreases v@.len() - start,
    {
        if !is_space_byte(v[start]) {
            break;
        }
        start += 1;
    }
    let mut end: usize = v.len();
    while end > start
        invariant
            start <= end <= v@.len(),
            start < v@.len() ==> !is_space(v@[start as int]),
            skip_leading(v@, 0) == start,
            skip_trailing(v@, v@.len() as int, start as int) == skip_trailing(
                v@,
                end as int,
                start as int,
            ),
        ensures
            start <= end <= v@.len(),
            end > start ==> !is_space(v@[end - 1]),
            start < v@.len() ==> !is_space(v@[start as int]),
            skip_leading(v@, 0) == start,
            skip_trailing(v@, v@.len() as int, start as int) == end,
        decreases end,
    {
        if !is_space_byte(v[end - 1]) {
            break;
        }
        end -= 1;
    }
    subvec(v, start, end)
}

/// Append a copy of `src` to `dst`.
pub fn push_all(dst: &mut Vec<u8>, src: &Vec<u8>)
    ensures
        final(dst)@ == old(dst)@ + src@,
{
    let n = src.len();
    let mut i: usize = 0;
    while i < n
        invariant
            0 <= i <= n,
            n == src@.len(),
            dst@ == old(dst)@ + src@.subrange(0, i as int),
        decreases n - i,
    {
        dst.push(src[i]);
        i += 1;
        assert(dst@ =~= old(dst)@ + src@.subrange(0, i as int));
    }
    assert(dst@ =~= old(dst)@ + src@);
}

/// Elementwise equality of two byte vectors.
pub fn eq_vec(a: &Vec<u8>, b: &Vec<u8>) -> (r: bool)
    ensures
        r == (a@ =~= b@),
{
    if a.len() != b.len() {
        return false;
    }
    let n = a.len();
    let mut i: usize = 0;
    while i < n
        invariant
            0 <= i <= n,
            n == a@.len() == b@.len(),
            forall|k: int| 0 <= k < i ==> a@[k] == b@[k],
        decreases n - i,
    {
        if a[i] != b[i] {
            return false;
        }
        i += 1;
    }
    true
}

} // verus!
