//! Numbers written as decimal text: integers, and coordinates within a bound.
use vstd::prelude::*;

verus! {

pub open spec fn is_digit(c: char) -> bool {
    '0' <= c && c <= '9'
}

pub open spec fn all_digits(s: Seq<char>) -> bool {
    forall|i: int| 0 <= i < s.len() ==> is_digit(#[trigger] s[i])
}

pub open spec fn all_zeros(s: Seq<char>) -> bool {
    forall|i: int| 0 <= i < s.len() ==> #[trigger] s[i] == '0'
}

pub open spec fn digit_value(c: char) -> nat {
    (c as nat - '0' as nat) as nat
}

/// The number that a run of decimal digits denotes.
pub open spec fn digits_value(s: Seq<char>) -> nat
    decreases s.len(),
{
    if s.len() == 0 {
        0
    } else {
        10 * digits_value(s.drop_last()) + digit_value(s.last())
    }
}

/// Length of a leading minus sign: 1 or 0.
pub open spec fn sign_len(s: Seq<char>) -> int {
    if s.len() > 0 && s[0] == '-' {
        1
    } else {
        0
    }
}

/// The text after its sign.
pub open spec fn magnitude(s: Seq<char>) -> Seq<char> {
    s.subrange(sign_len(s), s.len() as int)
}

/// The integer that `s` denotes when it is an optional `-` and one or more digits.
pub open spec fn integer_value(s: Seq<char>) -> Option<int> {
    let m = magnitude(s);
    if m.len() > 0 && all_digits(m) {
        if sign_len(s) == 1 {
            Some(-(digits_value(m) as int))
        } else {
            Some(digits_value(m) as int)
        }
    } else {
        None
    }
}

/// Digits after the point at `p`, when there is one.
pub open spec fn fraction_at(m: Seq<char>, p: int) -> Seq<char> {
    if p < m.len() {
        m.subrange(p + 1, m.len() as int)
    } else {
        Seq::empty()
    }
}

/// `m` is one or more digits, then (when `p` is not its end) a point and one or more digits.
pub open spec fn split_at_point(m: Seq<char>, p: int) -> bool {
    &&& 0 < p <= m.len()
    &&& all_digits(m.take(p))
    &&& p < m.len() ==> (m[p] == '.' && p + 1 < m.len() && all_digits(fraction_at(m, p)))
}

/// `s` is plain decimal notation (no exponent) for a number whose absolute
/// value is at most `bound`.
pub open spec fn decimal_within(s: Seq<char>, bound: nat) -> bool {
    let m = magnitude(s);
    exists|p: int|
        split_at_point(m, p) && (digits_value(m.take(p)) < bound || (digits_value(m.take(p))
            == bound && all_zeros(fraction_at(m, p))))
}

proof fn lemma_digits_prefix_le(s: Seq<char>, k: int)
    requires
        0 <= k <= s.len(),
    ensures
        digits_value(s.take(k)) <= digits_value(s),
    decreases s.len() - k,
{
    if k < s.len() {
        lemma_digits_prefix_le(s, k + 1);
        assert(s.take(k + 1).drop_last() =~= s.take(k));
    } else {
        assert(s.take(k) =~= s);
    }
}

fn char_digit(c: char) -> (r: u32)
    requires
        is_digit(c),
    ensures
        r as nat == digit_value(c),
        r <= 9,
{
    (c as u32) - ('0' as u32)
}

/// The integer written in `t`, when it is an optional `-` and digits and lies
/// within `lo..=hi`.
pub fn parse_integer(t: &str, lo: i64, hi: i64) -> (r: Option<i64>)
    ensures
        r is Some <==> (integer_value(t@) is Some && lo <= integer_value(t@)->0 <= hi),
        r matches Some(v) ==> integer_value(t@) == Some(v as int),
{
    let n = t.unicode_len();
    let ghost s = t@;
    let start: usize = if n > 0 && t.get_char(0) == '-' {
        1
    } else {
        0
    };
    let ghost m = magnitude(s);
    assert(m =~= s.subrange(start as int, n as int));
    if start == n {
        return None;
    }
    let limit: u128 = 9223372036854775808;
    let mut acc: u128 = 0;
    let mut i: usize = start;
    while i < n
        invariant
            n == s.len(),
            s == t@,
            start <= i <= n,
            start == sign_len(s),
            m == s.subrange(start as int, n as int),
            all_digits(m.take(i - start)),
            acc == digits_value(m.take(i - start)),
            acc <= limit,
            limit == 9223372036854775808u128,
        decreases n - i,
    {
        let c = t.get_char(i);
        if !('0' <= c && c <= '9') {
            assert(m[i - start] == c);
            return None;
        }
        let d = char_digit(c);
        let ghost before = m.take(i - start);
        acc = acc * 10 + d as u128;
        proof {
            let now = m.take(i - start + 1);
            assert(now.drop_last() =~= before);
            assert(now.last() == c);
            assert(all_digits(now));
        }
        i = i + 1;
        if acc > limit {
            proof {
                assert(m.take(m.len() as int) =~= m);
                lemma_digits_prefix_le(m, i - start);
                assert(all_digits(m.take(i - start)));
            }
            if i == n {
                return None;
            }
            // Further digits only make the magnitude larger: either the text
            // holds a non-digit, or its magnitude exceeds every i64.
            let mut j: usize = i;
            while j < n
                invariant
                    n == s.len(),
                    s == t@,
                    start <= j <= n,
                    start == sign_len(s),
                    m == s.subrange(start as int, n as int),
                    all_digits(m.take(j - start)),
                    digits_value(m.take(j - start)) > limit,
                decreases n - j,
            {
                let c2 = t.get_char(j);
                if !('0' <= c2 && c2 <= '9') {
                    assert(m[j - start] == c2);
                    return None;
                }
                proof {
                    let now = m.take(j - start + 1);
                    assert(now.drop_last() =~= m.take(j - start));
                    assert(all_digits(now));
                }
                j = j + 1;
            }
            assert(m.take(n - start) =~= m);
            return None;
        }
    }
    assert(m.take(n - start) =~= m);
    let v: i128 = if start == 1 {
        -(acc as i128)
    } else {
        acc as i128
    };
    assert(integer_value(s) == Some(v as int));
    if (lo as i128) <= v && v <= (hi as i128) {
        Some(v as i64)
    } else {
        None
    }
}

/// Whether `t` is plain decimal notation for a number whose absolute value is
/// at most `bound`.
pub fn is_decimal_within(t: &str, bound: u64) -> (r: bool)
    requires
        bound <= 1_000_000,
    ensures
        r == decimal_within(t@, bound as nat),
{
    let n = t.unicode_len();
    let ghost s = t@;
    let start: usize = if n > 0 && t.get_char(0) == '-' {
        1
    } else {
        0
    };
    let ghost m = magnitude(s);
    assert(m =~= s.subrange(start as int, n as int));
    // Integer part, the value held at most one past the bound.
    let cap: u64 = bound + 1;
    let mut acc: u64 = 0;
    let mut i: usize = start;
    while i < n && '0' <= t.get_char(i) && t.get_char(i) <= '9'
        invariant
            n == s.len(),
            s == t@,
            start <= i <= n,
            start == sign_len(s),
            m == s.subrange(start as int, n as int),
            all_digits(m.take(i - start)),
            cap == bound + 1,
            bound <= 1_000_000,
            acc <= cap,
            acc == if digits_value(m.take(i - start)) < cap {
                digits_value(m.take(i - start))
            } else {
                cap as nat
            },
        decreases n - i,
    {
        let d = char_digit(t.get_char(i));
        proof {
            let now = m.take(i - start + 1);
            assert(now.drop_last() =~= m.take(i - start));
            assert(all_digits(now));
        }
        if acc < cap {
            let next: u64 = acc * 10 + d as u64;
            acc = if next < cap {
                next
            } else {
                cap
            };
        }
        i = i + 1;
    }
    let p: usize = i - start;
    let ghost ip = p as int;
    // No other place can split the text: digits run up to `p` and stop there.
    assert forall|q: int| #[trigger] split_at_point(m, q) implies q == ip by {
        if q < ip {
            assert(m.take(ip)[q] == m[q]);
            assert(is_digit(m[q]));
        } else if q > ip {
            assert(m.take(q)[ip] == m[ip]);
        }
    }
    if p == 0 {
        return false;
    }
    let ok_int_at_end: bool = acc < cap;
    if i == n {
        proof {
            if ok_int_at_end {
                assert(split_at_point(m, ip));
                assert(fraction_at(m, ip) =~= Seq::<char>::empty());
            }
        }
        return ok_int_at_end;
    }
    if t.get_char(i) != '.' || i + 1 == n {
        return false;
    }
    // Fraction: digits only, and whether all of them are zero.
    let mut zeros = true;
    let mut j: usize = i + 1;
    assert(fraction_at(m, ip) =~= s.subrange(i + 1, n as int));
    while j < n
        invariant
            n == s.len(),
            s == t@,
            start <= i < j <= n,
            m == s.subrange(start as int, n as int),
            all_digits(s.subrange(i + 1, j as int)),
            zeros == all_zeros(s.subrange(i + 1, j as int)),
            ip == i - start,
            ip < m.len(),
            fraction_at(m, ip) == s.subrange(i + 1, n as int),
            m == magnitude(s),
            forall|q: int| #[trigger] split_at_point(m, q) ==> q == ip,
        decreases n - j,
    {
        let c = t.get_char(j);
        if !('0' <= c && c <= '9') {
            proof {
                assert(fraction_at(m, ip)[j - i - 1] == c);
                assert(!split_at_point(m, ip));
            }
            return false;
        }
        proof {
            assert(s.subrange(i + 1, j + 1).drop_last() =~= s.subrange(i + 1, j as int));
        }
        if c != '0' {
            zeros = false;
        }
        j = j + 1;
        proof {
            let now = s.subrange(i + 1, j as int);
            assert forall|k: int| 0 <= k < now.len() implies is_digit(#[trigger] now[k]) by {
                if k < now.len() - 1 {
                    assert(now[k] == s.subrange(i + 1, j - 1)[k]);
                }
            }
            if zeros {
                assert forall|k: int| 0 <= k < now.len() implies #[trigger] now[k] == '0' by {
                    if k < now.len() - 1 {
                        assert(now[k] == s.subrange(i + 1, j - 1)[k]);
                    }
                }
            } else {
                if c != '0' {
                    assert(now[now.len() - 1] == c);
                } else {
                    let k = choose|k: int|
                        0 <= k < s.subrange(i + 1, j - 1).len() && #[trigger] s.subrange(
                            i + 1,
                            j - 1,
                        )[k] != '0';
                    assert(now[k] == s.subrange(i + 1, j - 1)[k]);
                }
            }
        }
    }
    proof {
        assert(fraction_at(m, ip) =~= s.subrange(i + 1, n as int));
        assert(split_at_point(m, ip));
    }
    acc < bound || (acc == bound && zeros)
}

/// `m` is one digit, optionally a point and one or more digits, then `e`, `-`
/// and one or more digits, the `e` standing at `p`.
pub open spec fn split_at_exponent(m: Seq<char>, p: int) -> bool {
    &&& m.len() > 0 && is_digit(m[0])
    &&& p == 1 || (p >= 3 && m[1] == '.' && all_digits(m.subrange(2, p)))
    &&& p + 2 < m.len()
    &&& m[p] == 'e'
    &&& m[p + 1] == '-'
    &&& all_digits(m.subrange(p + 2, m.len() as int))
}

/// `s` is scientific notation with one digit before the point and a negative
/// exponent (`-4.2e-6`): it denotes a number whose absolute value is below 10.
pub open spec fn small_scientific(s: Seq<char>) -> bool {
    exists|p: int| split_at_exponent(magnitude(s), p)
}

/// A coordinate within `bound` degrees of zero, in either notation that
/// canonical number text uses.
pub open spec fn coordinate_within(s: Seq<char>, bound: nat) -> bool {
    decimal_within(s, bound) || (bound >= 10 && small_scientific(s))
}

/// Whether `t` is scientific notation with one digit before the point and a
/// negative exponent.
pub fn is_small_scientific(t: &str) -> (r: bool)
    ensures
        r == small_scientific(t@),
{
    let n = t.unicode_len();
    let ghost s = t@;
    let start: usize = if n > 0 && t.get_char(0) == '-' {
        1
    } else {
        0
    };
    let ghost m = magnitude(s);
    assert(m =~= s.subrange(start as int, n as int));
    if start == n || !('0' <= t.get_char(start) && t.get_char(start) <= '9') {
        return false;
    }
    let mut i: usize = start + 1;
    if i < n && t.get_char(i) == '.' {
        i = i + 1;
        while i < n && '0' <= t.get_char(i) && t.get_char(i) <= '9'
            invariant
                n == s.len(),
                s == t@,
                start + 2 <= i <= n,
                m == s.subrange(start as int, n as int),
                all_digits(m.subrange(2, i - start)),
            decreases n - i,
        {
            proof {
                let now = m.subrange(2, i - start + 1);
                assert(now.drop_last() =~= m.subrange(2, i - start));
                assert(all_digits(now));
            }
            i = i + 1;
        }
        if i == start + 2 {
            assert forall|q: int| !split_at_exponent(m, q) by {
                if q >= 3 && q + 2 < m.len() {
                    assert(m.subrange(2, q)[0] == m[2]);
                }
            }
            return false;
        }
    }
    let ghost ip = i - start;
    // `ip` is the only place where `e` can stand.
    assert forall|q: int| #[trigger] split_at_exponent(m, q) implies q == ip by {
        if q < ip {
            if q >= 2 {
                assert(m.subrange(2, ip)[q - 2] == m[q]);
            }
        } else if q > ip {
            if ip >= 2 {
                assert(m.subrange(2, q)[ip - 2] == m[ip]);
            } else {
                assert(ip == 1);
                assert(m.subrange(2, q)[0] == m[2]);
            }
        }
    }
    if n - i <= 2 || t.get_char(i) != 'e' || t.get_char(i + 1) != '-' {
        return false;
    }
    let mut j: usize = i + 2;
    assert(m.subrange(ip + 2, ip + 2) =~= Seq::<char>::empty());
    while j < n
        invariant
            n == s.len(),
            s == t@,
            start + ip + 2 <= j <= n,
            start < i < n,
            ip == i - start,
            m == magnitude(s),
            m.len() == n - start,
            m == s.subrange(start as int, n as int),
            all_digits(m.subrange(ip + 2, j - start)),
            forall|q: int| #[trigger] split_at_exponent(m, q) ==> q == ip,
        decreases n - j,
    {
        let c = t.get_char(j);
        if !('0' <= c && c <= '9') {
            assert(s[j as int] == c);
            assert(m[j - start] == c);
            assert(m.subrange(ip + 2, m.len() as int)[j - start - ip - 2] == c);
            assert(!split_at_exponent(m, ip));
            return false;
        }
        proof {
            let now = m.subrange(ip + 2, j - start + 1);
            assert(now.drop_last() =~= m.subrange(ip + 2, j - start));
            assert(all_digits(now));
        }
        j = j + 1;
    }
    assert(m.subrange(ip + 2, n - start) =~= m.subrange(ip + 2, m.len() as int));
    assert(split_at_exponent(m, ip));
    true
}

/// Whether `t` is a coordinate within `bound` degrees of zero.
pub fn is_coordinate_within(t: &str, bound: u64) -> (r: bool)
    requires
        bound <= 1_000_000,
    ensures
        r == coordinate_within(t@, bound as nat),
{
    is_decimal_within(t, bound) || (bound >= 10 && is_small_scientific(t))
}

} // verus!
