//! Number formatting in the forms Java's `toString` methods produce.

use vstd::prelude::*;

use crate::value::push_char;

verus! {

/// The character for digit `d` (`0`-`9`, then `a`-`z`).
pub open spec fn digit_char(d: nat) -> char {
    if d < 10 {
        (('0' as u8) + d) as char
    } else {
        (('a' as u8) + (d - 10)) as char
    }
}

/// Digits of `n` in base `radix`, most significant first, no leading zeros
/// (`0` is the single digit `0`).
pub open spec fn unsigned_digits(n: nat, radix: nat) -> Seq<char>
    decreases n,
{
    if radix < 2 || n < radix {
        seq![digit_char(n)]
    } else {
        proof {
            assert(n / radix < n) by (nonlinear_arith)
                requires
                    radix >= 2,
                    n >= radix,
            ;
        }
        unsigned_digits(n / radix, radix).push(digit_char(n % radix))
    }
}

/// Signed form: a `-` before the digits of the magnitude of a negative number.
pub open spec fn signed_digits(n: int, radix: nat) -> Seq<char> {
    if n < 0 {
        seq!['-'] + unsigned_digits((-n) as nat, radix)
    } else {
        unsigned_digits(n as nat, radix)
    }
}

fn digit(d: u64) -> (c: char)
    requires
        d < 36,
    ensures
        c == digit_char(d as nat),
{
    if d < 10 {
        ((48u8 + d as u8) as char)
    } else {
        ((97u8 + (d - 10) as u8) as char)
    }
}

/// Appends the digits of `n` in base `radix`.
pub fn push_digits(s: &mut String, n: u64, radix: u64)
    requires
        2 <= radix <= 36,
    ensures
        final(s)@ == old(s)@ + unsigned_digits(n as nat, radix as nat),
    decreases n,
{
    if n >= radix {
        assert(n / radix < n) by (nonlinear_arith)
            requires
                radix >= 2,
                n >= radix,
        ;
        push_digits(s, n / radix, radix);
    }
    push_char(s, digit(n % radix));
    proof {
        if n >= radix {
            assert(unsigned_digits(n as nat, radix as nat) == unsigned_digits((n / radix) as nat, radix as nat).push(
                digit_char((n % radix) as nat)));
        } else {
            assert(n % radix == n) by (nonlinear_arith)
                requires
                    n < radix,
                    radix >= 2,
            ;
        }
    }
}

/// `n` in base `radix`, unsigned.
pub fn fmt_unsigned(n: u64, radix: u64) -> (r: String)
    requires
        2 <= radix <= 36,
    ensures
        r@ == unsigned_digits(n as nat, radix as nat),
{
    let mut s = String::new();
    push_digits(&mut s, n, radix);
    assert(s@ =~= unsigned_digits(n as nat, radix as nat));
    s
}

/// `prefix` followed by `n` in decimal.
pub fn with_number(prefix: &str, n: u32) -> (r: String)
    ensures
        r@ == prefix@ + unsigned_digits(n as nat, 10),
{
    let d = fmt_unsigned(n as u64, 10);
    crate::value::concat(prefix, d.as_str())
}

/// `n` in base `radix`, with a leading `-` when negative.
pub fn fmt_signed(n: i64, radix: u64) -> (r: String)
    requires
        2 <= radix <= 36,
    ensures
        r@ == signed_digits(n as int, radix as nat),
{
    let mut s = String::new();
    if n < 0 {
        push_char(&mut s, '-');
        let mag: u64 = if n == i64::MIN { 0x8000_0000_0000_0000u64 } else { (-n) as u64 };
        push_digits(&mut s, mag, radix);
    } else {
        push_digits(&mut s, n as u64, radix);
    }
    assert(s@ =~= signed_digits(n as int, radix as nat));
    s
}

/// Java `Integer.toString(i, radix)`: a radix outside 2..=36 means 10.
pub fn int_to_string(n: i32, radix: u32) -> (r: String)
    ensures
        r@ == signed_digits(n as int, if 2 <= radix <= 36 { radix as nat } else { 10 }),
{
    let rd: u64 = if 2 <= radix && radix <= 36 { radix as u64 } else { 10 };
    fmt_signed(n as i64, rd)
}

/// Java `Long.toString(l, radix)`: a radix outside 2..=36 means 10.
pub fn long_to_string(n: i64, radix: u32) -> (r: String)
    ensures
        r@ == signed_digits(n as int, if 2 <= radix <= 36 { radix as nat } else { 10 }),
{
    let rd: u64 = if 2 <= radix && radix <= 36 { radix as u64 } else { 10 };
    fmt_signed(n, rd)
}

} // verus!
