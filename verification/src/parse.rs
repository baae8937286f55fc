//! Integer parsing with the rules of `Integer.parseInt` / `Long.parseLong`.

use vstd::prelude::*;

verus! {

/// Value of `c` as a digit in base `radix` (`0`-`9`, then letters of either
/// case), if it is one.
pub open spec fn digit_value(c: char, radix: int) -> Option<int> {
    let v: int = if '0' <= c && c <= '9' {
        (c as int) - ('0' as int)
    } else if 'a' <= c && c <= 'z' {
        (c as int) - ('a' as int) + 10
    } else if 'A' <= c && c <= 'Z' {
        (c as int) - ('A' as int) + 10
    } else {
        99
    };
    if v < radix { Some(v) } else { None }
}

/// Value of the digits `s` in base `radix` (every character a digit).
pub open spec fn digits_value(s: Seq<char>, radix: int) -> Option<int>
    decreases s.len(),
{
    if s.len() == 0 {
        Some(0)
    } else {
        match (digits_value(s.drop_last(), radix), digit_value(s.last(), radix)) {
            (Some(p), Some(d)) => Some(p * radix + d),
            _ => None,
        }
    }
}

/// Value of a signed number: an optional `+` or `-`, then at least one digit.
pub open spec fn number_value(s: Seq<char>, radix: int) -> Option<int> {
    if s.len() > 0 && (s[0] == '-' || s[0] == '+') {
        if s.len() == 1 {
            None
        } else {
            match digits_value(s.drop_first(), radix) {
                Some(v) => Some(if s[0] == '-' { -v } else { v }),
                None => None,
            }
        }
    } else if s.len() == 0 {
        None
    } else {
        digits_value(s, radix)
    }
}

/// What parsing `s` in base `radix` yields when the result must lie in
/// `lo..=hi`: the value, or nothing for a malformed or out-of-range number
/// or a radix outside 2..=36.
pub open spec fn parse_in_range(s: Seq<char>, radix: int, lo: int, hi: int) -> Option<int> {
    if radix < 2 || radix > 36 {
        None
    } else {
        match number_value(s, radix) {
            Some(v) => if lo <= v && v <= hi { Some(v) } else { None },
            None => None,
        }
    }
}

proof fn lemma_digit_round_trip(d: nat, radix: int)
    requires
        d < radix <= 36,
    ensures
        digit_value(crate::text::digit_char(d), radix) == Some(d as int),
        crate::text::digit_char(d) != '-' && crate::text::digit_char(d) != '+',
{
}

proof fn lemma_unsigned_round_trip(n: nat, radix: nat)
    requires
        2 <= radix <= 36,
    ensures
        digits_value(crate::text::unsigned_digits(n, radix), radix as int) == Some(n as int),
        crate::text::unsigned_digits(n, radix).len() > 0,
        crate::text::unsigned_digits(n, radix)[0] != '-' && crate::text::unsigned_digits(n, radix)[0] != '+',
    decreases n,
{
    let ds = crate::text::unsigned_digits(n, radix);
    if n < radix {
        lemma_digit_round_trip(n, radix as int);
        assert(ds == seq![crate::text::digit_char(n)]);
        assert(ds.drop_last() =~= Seq::<char>::empty());
        assert(digits_value(Seq::<char>::empty(), radix as int) == Some(0int));
        assert(ds.last() == crate::text::digit_char(n));
        assert(0 * (radix as int) + n == n);
    } else {
        let q = n / radix;
        let m = n % radix;
        assert(q < n) by (nonlinear_arith)
            requires
                radix >= 2,
                n >= radix,
                q == n / radix,
        ;
        lemma_unsigned_round_trip(q, radix);
        lemma_digit_round_trip(m, radix as int);
        assert(ds == crate::text::unsigned_digits(q, radix).push(crate::text::digit_char(m)));
        assert(ds.drop_last() =~= crate::text::unsigned_digits(q, radix));
        assert(q * radix + m == n) by (nonlinear_arith)
            requires
                radix >= 2,
                q == n / radix,
                m == n % radix,
        ;
        assert(ds[0] == crate::text::unsigned_digits(q, radix)[0]);
        assert(ds.last() == crate::text::digit_char(m));
    }
}

/// Parsing the digits `Integer.toString` and `Long.toString` write, in the
/// same radix, gives the number back: formatting and parsing are inverse,
/// for every value and every radix from 2 to 36.
pub proof fn law_format_parse_round_trip(n: int, radix: nat)
    requires
        2 <= radix <= 36,
    ensures
        number_value(crate::text::signed_digits(n, radix), radix as int) == Some(n),
        i64::MIN <= n <= i64::MAX ==> parse_in_range(crate::text::signed_digits(n, radix), radix as int, i64::MIN as int, i64::MAX as int) == Some(n),
        i32::MIN <= n <= i32::MAX ==> parse_in_range(crate::text::signed_digits(n, radix), radix as int, i32::MIN as int, i32::MAX as int) == Some(n),
{
    let s = crate::text::signed_digits(n, radix);
    if n < 0 {
        lemma_unsigned_round_trip((-n) as nat, radix);
        assert(s.drop_first() =~= crate::text::unsigned_digits((-n) as nat, radix));
    } else {
        lemma_unsigned_round_trip(n as nat, radix);
    }
}

fn digit_of(c: char, radix: u32) -> (r: Option<u32>)
    requires
        2 <= radix <= 36,
    ensures
        r matches Some(d) ==> digit_value(c, radix as int) == Some(d as int) && d < radix,
        r is None ==> digit_value(c, radix as int) is None,
{
    let v: u32 = if '0' <= c && c <= '9' {
        (c as u32) - ('0' as u32)
    } else if 'a' <= c && c <= 'z' {
        (c as u32) - ('a' as u32) + 10
    } else if 'A' <= c && c <= 'Z' {
        (c as u32) - ('A' as u32) + 10
    } else {
        99
    };
    if v < radix { Some(v) } else { None }
}

proof fn lemma_digits_nonneg(s: Seq<char>, radix: int)
    requires
        radix >= 2,
    ensures
        digits_value(s, radix) matches Some(v) ==> v >= 0,
    decreases s.len(),
{
    if s.len() > 0 {
        lemma_digits_nonneg(s.drop_last(), radix);
        if let (Some(p), Some(d)) = (digits_value(s.drop_last(), radix), digit_value(s.last(), radix)) {
            assert(p * radix >= 0) by (nonlinear_arith)
                requires
                    p >= 0,
                    radix >= 2,
            ;
        }
    }
}

proof fn lemma_digits_monotone(s: Seq<char>, radix: int, k: int)
    requires
        radix >= 2,
        0 <= k <= s.len(),
        digits_value(s, radix) is Some,
    ensures
        digits_value(s.subrange(0, k), radix) is Some,
        digits_value(s.subrange(0, k), radix)->Some_0 <= digits_value(s, radix)->Some_0,
    decreases s.len() - k,
{
    if k < s.len() {
        let t = s.subrange(0, k + 1);
        lemma_digits_monotone(s, radix, k + 1);
        assert(t.drop_last() =~= s.subrange(0, k));
        lemma_digits_nonneg(s.subrange(0, k), radix);
        let p = digits_value(s.subrange(0, k), radix)->Some_0;
        let d = digit_value(t.last(), radix)->Some_0;
        assert(p <= p * radix + d) by (nonlinear_arith)
            requires
                p >= 0,
                radix >= 2,
                d >= 0,
        ;
    } else {
        assert(s.subrange(0, k) =~= s);
    }
}

/// Magnitude of the digits of `s` from `start` on, when they form a number
/// no larger than `limit`.
fn magnitude(s: &str, n: usize, start: usize, radix: u32, limit: u64) -> (r: Option<u64>)
    requires
        n == s@.len(),
        start < n,
        2 <= radix <= 36,
        limit <= 0x8000_0000_0000_0000u64,
    ensures
        r matches Some(v) ==> digits_value(s@.subrange(start as int, n as int), radix as int) == Some(v as int) && v <= limit,
        r is None ==> match digits_value(s@.subrange(start as int, n as int), radix as int) {
            Some(v) => v > limit,
            None => true,
        },
{
    let ghost t = s@.subrange(start as int, n as int);
    let mut acc: u64 = 0;
    let mut i = start;
    assert(t.subrange(0, 0) =~= Seq::<char>::empty());
    while i < n
        invariant
            start <= i <= n,
            n == s@.len(),
            t == s@.subrange(start as int, n as int),
            2 <= radix <= 36,
            limit <= 0x8000_0000_0000_0000u64,
            acc <= limit,
            digits_value(t.subrange(0, i - start), radix as int) == Some(acc as int),
        decreases n - i,
    {
        let c = s.get_char(i);
        let ghost pre = t.subrange(0, i - start);
        let ghost nxt = t.subrange(0, i + 1 - start);
        proof {
            assert(nxt.drop_last() =~= pre);
            assert(nxt.last() == c);
        }
        match digit_of(c, radix) {
            Some(d) => {
                assert((acc as u128) * (radix as u128) <= 0x8000_0000_0000_0000u128 * 36) by (nonlinear_arith)
                    requires
                        acc <= 0x8000_0000_0000_0000u64,
                        radix <= 36,
                ;
                let big: u128 = (acc as u128) * (radix as u128) + (d as u128);
                assert(big == acc * radix + d) by (nonlinear_arith)
                    requires
                        big == (acc as u128) * (radix as u128) + (d as u128),
                        acc <= 0x8000_0000_0000_0000u64,
                        radix <= 36,
                        d < 36,
                ;
                if big > limit as u128 {
                    proof {
                        if let Some(full) = digits_value(t, radix as int) {
                            lemma_digits_monotone(t, radix as int, i + 1 - start);
                        }
                    }
                    return None;
                }
                acc = big as u64;
            },
            None => {
                proof {
                    if digits_value(t, radix as int) is Some {
                        lemma_digits_monotone(t, radix as int, i + 1 - start);
                    }
                }
                return None;
            },
        }
        i += 1;
    }
    assert(t.subrange(0, n - start) =~= t);
    Some(acc)
}

/// Parses `s` in base `radix`; the value must lie in `-neg_limit..=pos_limit`.
pub fn parse_signed(s: &str, radix: u32, neg_limit: u64, pos_limit: u64) -> (r: Option<i64>)
    requires
        neg_limit <= 0x8000_0000_0000_0000u64,
        pos_limit <= 0x7fff_ffff_ffff_ffffu64,
    ensures
        r matches Some(v) ==> parse_in_range(s@, radix as int, -(neg_limit as int), pos_limit as int) == Some(v as int),
        r is None ==> parse_in_range(s@, radix as int, -(neg_limit as int), pos_limit as int) is None,
{
    if radix < 2 || radix > 36 {
        return None;
    }
    let n = s.unicode_len();
    if n == 0 {
        return None;
    }
    let c0 = s.get_char(0);
    if c0 == '-' || c0 == '+' {
        if n == 1 {
            return None;
        }
        assert(s@.subrange(1, n as int) =~= s@.drop_first());
        let neg = c0 == '-';
        let lim = if neg { neg_limit } else { pos_limit };
        match magnitude(s, n, 1, radix, lim) {
            Some(m) => {
                if neg {
                    if m == 0x8000_0000_0000_0000u64 {
                        Some(i64::MIN)
                    } else {
                        Some(-(m as i64))
                    }
                } else {
                    Some(m as i64)
                }
            },
            None => {
                proof { lemma_digits_nonneg(s@.drop_first(), radix as int); }
                None
            },
        }
    } else {
        assert(s@.subrange(0, n as int) =~= s@);
        match magnitude(s, n, 0, radix, pos_limit) {
            Some(m) => Some(m as i64),
            None => {
                proof { lemma_digits_nonneg(s@, radix as int); }
                None
            },
        }
    }
}

} // verus!
