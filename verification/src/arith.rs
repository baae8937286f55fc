//! Dalvik integer arithmetic: two's-complement wrapping for `+ - *`,
//! truncating division (with `MIN / -1 == MIN`), remainders with the sign of
//! the dividend, shift distances masked to the operand width.

use vstd::prelude::*;

use crate::insn::Binop;
use vstd::arithmetic::power2::{lemma2_to64, lemma_pow2_pos, lemma_pow2_unfold, pow2};

verus! {

/// Magnitude of an integer.
pub open spec fn abs(x: int) -> nat {
    if x >= 0 { x as nat } else { (-x) as nat }
}

/// Truncating (round toward zero) quotient, `y != 0`.
pub open spec fn quot(x: int, y: int) -> int {
    if (x >= 0) == (y >= 0) { (abs(x) / abs(y)) as int } else { -((abs(x) / abs(y)) as int) }
}

/// Remainder of the truncating quotient: magnitude `|x| mod |y|`, sign of
/// the dividend.
pub open spec fn rem(x: int, y: int) -> int {
    if x >= 0 { (abs(x) % abs(y)) as int } else { -((abs(x) % abs(y)) as int) }
}

/// `int` binary operation; `None` for division or remainder by zero.
pub open spec fn int_binop(op: Binop, x: i32, y: i32) -> Option<i32> {
    match op {
        Binop::Add => Some(vstd::wrapping::i32_specs::wrapping_add(x, y)),
        Binop::Sub => Some(vstd::wrapping::i32_specs::wrapping_sub(x, y)),
        Binop::Mul => Some(vstd::wrapping::i32_specs::wrapping_mul(x, y)),
        Binop::Div => if y == 0 { None } else if x == i32::MIN && y == -1 { Some(i32::MIN) } else { Some(quot(x as int, y as int) as i32) },
        Binop::Rem => if y == 0 { None } else { Some(rem(x as int, y as int) as i32) },
        Binop::And => Some(x & y),
        Binop::Or => Some(x | y),
        Binop::Xor => Some(x ^ y),
        Binop::Shl => Some(vstd::wrapping::i32_specs::wrapping_shl(x, (y & 31) as u32)),
        Binop::Shr => Some(vstd::wrapping::i32_specs::wrapping_shr(x, (y & 31) as u32)),
        Binop::Ushr => Some(((x as u32) >> ((y & 31) as u32)) as i32),
    }
}

/// `long` binary operation; `None` for division or remainder by zero.
pub open spec fn long_binop(op: Binop, x: i64, y: i64) -> Option<i64> {
    match op {
        Binop::Add => Some(vstd::wrapping::i64_specs::wrapping_add(x, y)),
        Binop::Sub => Some(vstd::wrapping::i64_specs::wrapping_sub(x, y)),
        Binop::Mul => Some(vstd::wrapping::i64_specs::wrapping_mul(x, y)),
        Binop::Div => if y == 0 { None } else if x == i64::MIN && y == -1 { Some(i64::MIN) } else { Some(quot(x as int, y as int) as i64) },
        Binop::Rem => if y == 0 { None } else { Some(rem(x as int, y as int) as i64) },
        Binop::And => Some(x & y),
        Binop::Or => Some(x | y),
        Binop::Xor => Some(x ^ y),
        Binop::Shl => Some(vstd::wrapping::i64_specs::wrapping_shl(x, (y & 63) as u32)),
        Binop::Shr => Some(vstd::wrapping::i64_specs::wrapping_shr(x, (y & 63) as u32)),
        Binop::Ushr => Some(((x as u64) >> ((y & 63) as u32)) as i64),
    }
}

/// `x >> k` on 32 bits rounds `x / 2^k` down.
proof fn lemma_shr32_floor(x: i32, k: u32)
    requires
        k < 32,
    ensures
        (x >> k) * pow2(k as nat) <= x,
        x < (x >> k) * pow2(k as nat) + pow2(k as nat),
    decreases k,
{
    if k == 0 {
        assert(x >> 0u32 == x) by (bit_vector);
        lemma2_to64();
    } else {
        lemma_shr32_floor(x, (k - 1) as u32);
        let km1 = (k - 1) as u32;
        let a = x >> km1;
        let b = x >> k;
        assert(b == a >> 1u32) by (bit_vector)
            requires
                0 < k < 32,
                km1 + 1 == k,
                a == x >> km1,
                b == x >> k,
        ;
        assert(2 * b <= a && a <= 2 * b + 1) by (bit_vector)
            requires
                b == a >> 1u32,
        ;
        let p = pow2((k - 1) as nat);
        lemma_pow2_unfold(k as nat);
        lemma_pow2_pos((k - 1) as nat);
        assert(b * (2 * p) <= x && x < b * (2 * p) + 2 * p) by (nonlinear_arith)
            requires
                p > 0,
                2 * b <= a,
                a <= 2 * b + 1,
                a * p <= x,
                x < a * p + p,
        ;
    }
}

/// `x >> k` on 64 bits rounds `x / 2^k` down.
proof fn lemma_shr64_floor(x: i64, k: u32)
    requires
        k < 64,
    ensures
        (x >> k) * pow2(k as nat) <= x,
        x < (x >> k) * pow2(k as nat) + pow2(k as nat),
    decreases k,
{
    if k == 0 {
        assert(x >> 0u32 == x) by (bit_vector);
        lemma2_to64();
    } else {
        lemma_shr64_floor(x, (k - 1) as u32);
        let km1 = (k - 1) as u32;
        let a = x >> km1;
        let b = x >> k;
        assert(b == a >> 1u32) by (bit_vector)
            requires
                0 < k < 64,
                km1 + 1 == k,
                a == x >> km1,
                b == x >> k,
        ;
        assert(2 * b <= a && a <= 2 * b + 1) by (bit_vector)
            requires
                b == a >> 1u32,
        ;
        let p = pow2((k - 1) as nat);
        lemma_pow2_unfold(k as nat);
        lemma_pow2_pos((k - 1) as nat);
        assert(b * (2 * p) <= x && x < b * (2 * p) + 2 * p) by (nonlinear_arith)
            requires
                p > 0,
                2 * b <= a,
                a <= 2 * b + 1,
                a * p <= x,
                x < a * p + p,
        ;
    }
}

/// `shr-int` is an arithmetic shift: it divides `x` by 2^(y & 31) rounding
/// toward negative infinity, so a negative `x` stays negative.
pub proof fn law_shr_int_divides(x: i32, y: i32)
    ensures
        int_binop(Binop::Shr, x, y) matches Some(r) && {
            let p = pow2((y & 31) as nat);
            r * p <= x && x < r * p + p
        },
        x < 0 ==> (int_binop(Binop::Shr, x, y) matches Some(r) && r < 0),
{
    lemma_mask31(y);
    let k = (y & 31) as u32;
    assert(k % 32 == k);
    lemma_shr32_floor(x, k);
    lemma_pow2_pos(k as nat);
    let r = x >> k;
    if x < 0 && r >= 0 {
        assert(r * pow2(k as nat) >= 0) by (nonlinear_arith)
            requires
                r >= 0,
                pow2(k as nat) > 0,
        ;
    }
}

/// `shr-long` is an arithmetic shift: it divides `x` by 2^(y & 63) rounding
/// toward negative infinity, so a negative `x` stays negative.
pub proof fn law_shr_long_divides(x: i64, y: i64)
    ensures
        long_binop(Binop::Shr, x, y) matches Some(r) && {
            let p = pow2((y & 63) as nat);
            r * p <= x && x < r * p + p
        },
        x < 0 ==> (long_binop(Binop::Shr, x, y) matches Some(r) && r < 0),
{
    lemma_mask63(y);
    let k = (y & 63) as u32;
    assert(k % 64 == k);
    lemma_shr64_floor(x, k);
    lemma_pow2_pos(k as nat);
    let r = x >> k;
    if x < 0 && r >= 0 {
        assert(r * pow2(k as nat) >= 0) by (nonlinear_arith)
            requires
                r >= 0,
                pow2(k as nat) > 0,
        ;
    }
}

/// `ushr-int` is a logical shift: read as unsigned, `x` is divided by
/// 2^(y & 31) rounding down, so the result is never negative for a shift of
/// at least one.
pub proof fn law_ushr_int_divides(x: i32, y: i32)
    ensures
        int_binop(Binop::Ushr, x, y) matches Some(r)
            && (r as u32) as nat == (x as u32) as nat / pow2((y & 31) as nat),
        (y & 31) > 0 ==> (int_binop(Binop::Ushr, x, y) matches Some(r) && r >= 0),
{
    lemma_mask31(y);
    let k = (y & 31) as u32;
    let u = x as u32;
    vstd::bits::lemma_u32_shr_is_div(u, k);
    let v = u >> k;
    assert(((v as i32) as u32) == v) by (bit_vector);
    if k > 0 {
        assert((u >> k) as i32 >= 0) by (bit_vector)
            requires
                0 < k < 32,
        ;
    }
}

/// `ushr-long` is a logical shift: read as unsigned, `x` is divided by
/// 2^(y & 63) rounding down.
pub proof fn law_ushr_long_divides(x: i64, y: i64)
    ensures
        long_binop(Binop::Ushr, x, y) matches Some(r)
            && (r as u64) as nat == (x as u64) as nat / pow2((y & 63) as nat),
        (y & 63) > 0 ==> (long_binop(Binop::Ushr, x, y) matches Some(r) && r >= 0),
{
    lemma_mask63(y);
    let k = (y & 63) as u64;
    let u = x as u64;
    vstd::bits::lemma_u64_shr_is_div(u, k);
    let v = u >> k;
    assert(((v as i64) as u64) == v) by (bit_vector);
    assert((u >> k) == (u >> (k as u32))) by (bit_vector)
        requires
            k < 64,
    ;
    if k > 0 {
        assert((u >> k) as i64 >= 0) by (bit_vector)
            requires
                0 < k < 64,
        ;
    }
}

/// The truncating quotient and its remainder put `x` back together, the
/// remainder is smaller than the divisor and has the dividend's sign, and
/// the quotient is no larger than the dividend.
proof fn lemma_quot_rem(x: int, y: int)
    requires
        y != 0,
    ensures
        quot(x, y) * y + rem(x, y) == x,
        x >= 0 ==> 0 <= rem(x, y),
        x < 0 ==> rem(x, y) <= 0,
        y > 0 ==> -y < rem(x, y) < y,
        y < 0 ==> y < rem(x, y) < -y,
        abs(quot(x, y)) <= abs(x),
{
    let a = abs(x) as int;
    let b = abs(y) as int;
    vstd::arithmetic::div_mod::lemma_fundamental_div_mod(a, b);
    vstd::arithmetic::div_mod::lemma_mod_bound(a, b);
    vstd::arithmetic::div_mod::lemma_div_is_ordered_by_denominator(a, 1, b);
    vstd::arithmetic::div_mod::lemma_div_pos_is_pos(a, b);
    assert(a / 1 == a);
    let q = a / b;
    let m = a % b;
    assert(a == b * q + m);
    if (x >= 0) == (y >= 0) {
        assert(quot(x, y) == q);
        if x >= 0 {
            assert(q * y + m == x) by (nonlinear_arith)
                requires
                    a == b * q + m,
                    a == x,
                    b == y,
            ;
        } else {
            assert(q * y - m == x) by (nonlinear_arith)
                requires
                    a == b * q + m,
                    a == -x,
                    b == -y,
            ;
        }
    } else {
        assert(quot(x, y) == -q);
        if x >= 0 {
            assert(-q * y + m == x) by (nonlinear_arith)
                requires
                    a == b * q + m,
                    a == x,
                    b == -y,
            ;
        } else {
            assert(-q * y - m == x) by (nonlinear_arith)
                requires
                    a == b * q + m,
                    a == -x,
                    b == y,
            ;
        }
    }
}

/// `div-int` and `rem-int` truncate toward zero: the quotient times the
/// divisor plus the remainder is the dividend, and the remainder is smaller
/// than the divisor and has the dividend's sign. Division by zero gives
/// nothing; `MIN / -1` wraps to `MIN` with remainder 0.
pub proof fn law_div_rem_int(x: i32, y: i32)
    ensures
        y == 0 ==> int_binop(Binop::Div, x, y) is None && int_binop(Binop::Rem, x, y) is None,
        y != 0 && !(x == i32::MIN && y == -1) ==> (int_binop(Binop::Div, x, y) matches Some(q)
            && int_binop(Binop::Rem, x, y) matches Some(m) && q * y + m == x
            && (x >= 0 ==> 0 <= m) && (x < 0 ==> m <= 0)
            && (y > 0 ==> -y < m < y) && (y < 0 ==> y < m < -y)),
        x == i32::MIN && y == -1 ==> int_binop(Binop::Div, x, y) == Some(i32::MIN)
            && int_binop(Binop::Rem, x, y) == Some(0i32),
{
    if y != 0 {
        lemma_quot_rem(x as int, y as int);
        if x == i32::MIN && y == -1 {
            assert(rem(x as int, y as int) == 0);
        } else {
            assert(i32::MIN <= quot(x as int, y as int) <= i32::MAX);
        }
    }
}

/// `div-long` and `rem-long` truncate toward zero, as [`law_div_rem_int`]
/// says for `int`.
pub proof fn law_div_rem_long(x: i64, y: i64)
    ensures
        y == 0 ==> long_binop(Binop::Div, x, y) is None && long_binop(Binop::Rem, x, y) is None,
        y != 0 && !(x == i64::MIN && y == -1) ==> (long_binop(Binop::Div, x, y) matches Some(q)
            && long_binop(Binop::Rem, x, y) matches Some(m) && q * y + m == x
            && (x >= 0 ==> 0 <= m) && (x < 0 ==> m <= 0)
            && (y > 0 ==> -y < m < y) && (y < 0 ==> y < m < -y)),
        x == i64::MIN && y == -1 ==> long_binop(Binop::Div, x, y) == Some(i64::MIN)
            && long_binop(Binop::Rem, x, y) == Some(0i64),
{
    if y != 0 {
        lemma_quot_rem(x as int, y as int);
        if x == i64::MIN && y == -1 {
            assert(rem(x as int, y as int) == 0);
        } else {
            assert(i64::MIN <= quot(x as int, y as int) <= i64::MAX);
        }
    }
}

/// `add`, `sub` and `mul` on `int` wrap: the result is the exact value
/// reduced to 32 bits, congruent to it modulo 2^32.
pub proof fn law_int_wraps(x: i32, y: i32)
    ensures
        int_binop(Binop::Add, x, y) matches Some(r) && (r - (x + y)) % 0x1_0000_0000 == 0,
        int_binop(Binop::Sub, x, y) matches Some(r) && (r - (x - y)) % 0x1_0000_0000 == 0,
        i32::MIN <= x + y <= i32::MAX ==> int_binop(Binop::Add, x, y) == Some((x + y) as i32),
        i32::MIN <= x - y <= i32::MAX ==> int_binop(Binop::Sub, x, y) == Some((x - y) as i32),
        i32::MIN <= x * y <= i32::MAX ==> int_binop(Binop::Mul, x, y) == Some((x * y) as i32),
{
}

proof fn lemma_mask31(y: i32)
    ensures
        0 <= (y & 31) < 32,
{
    assert(0 <= (y & 31) < 32) by (bit_vector);
}

proof fn lemma_mask63(y: i64)
    ensures
        0 <= (y & 63) < 64,
{
    assert(0 <= (y & 63) < 64) by (bit_vector);
}

/// Magnitude of a 64-bit value.
fn mag64(x: i64) -> (r: u64)
    ensures
        r as nat == abs(x as int),
{
    if x >= 0 {
        x as u64
    } else if x == i64::MIN {
        0x8000_0000_0000_0000u64
    } else {
        (-x) as u64
    }
}

/// Truncating quotient and remainder of `x / y` (`y != 0`, not `MIN / -1`).
fn div_rem64(x: i64, y: i64) -> (r: (i64, i64))
    requires
        y != 0,
        !(x == i64::MIN && y == -1),
    ensures
        r.0 as int == quot(x as int, y as int),
        r.1 as int == rem(x as int, y as int),
{
    let ax = mag64(x);
    let ay = mag64(y);
    let q = ax / ay;
    let m = ax % ay;
    assert(q <= ax) by (nonlinear_arith)
        requires
            ay >= 1,
            q == ax / ay;
    assert(m < ay);
    if (x >= 0) == (y >= 0) {
        // same signs: q <= |x| and q == |x| (only when |y| == 1), so q fits
        // unless x == MIN and y == -1 (excluded) or x == MIN and y == 1
        if q > i64::MAX as u64 {
            assert(q == 0x8000_0000_0000_0000u64);
            assert(false) by (nonlinear_arith)
                requires
                    q == ax / ay,
                    ax <= 0x8000_0000_0000_0000u64,
                    q > 0x7fff_ffff_ffff_ffffu64,
                    ay >= 1,
                    x >= 0 <==> y >= 0,
                    ax == 0x8000_0000_0000_0000u64 ==> x < 0,
                    x < 0 && ay == 1 ==> y == -1,
                    !(x == i64::MIN && y == -1),
                    ax == 0x8000_0000_0000_0000u64 ==> x == i64::MIN;
        }
        let qs = q as i64;
        let ms = if x >= 0 { m as i64 } else { -(m as i64) };
        (qs, ms)
    } else {
        let qs = if q == 0x8000_0000_0000_0000u64 { i64::MIN } else { -(q as i64) };
        let ms = if x >= 0 { m as i64 } else { -(m as i64) };
        (qs, ms)
    }
}

/// The `int` operation `op`, or `None` on division by zero.
pub fn int_op(op: Binop, x: i32, y: i32) -> (r: Option<i32>)
    ensures
        r == int_binop(op, x, y),
{
    match op {
        Binop::Add => Some(x.wrapping_add(y)),
        Binop::Sub => Some(x.wrapping_sub(y)),
        Binop::Mul => Some(x.wrapping_mul(y)),
        Binop::Div => {
            if y == 0 {
                None
            } else if x == i32::MIN && y == -1 {
                Some(i32::MIN)
            } else {
                let (q, _) = div_rem64(x as i64, y as i64);
                Some(q as i32)
            }
        },
        Binop::Rem => {
            if y == 0 {
                None
            } else if y == -1 {
                Some(0)
            } else {
                let (_, m) = div_rem64(x as i64, y as i64);
                Some(m as i32)
            }
        },
        Binop::And => Some(x & y),
        Binop::Or => Some(x | y),
        Binop::Xor => Some(x ^ y),
        Binop::Shl => Some(x.wrapping_shl((y & 31) as u32)),
        Binop::Shr => Some(x.wrapping_shr((y & 31) as u32)),
        Binop::Ushr => {
            proof { lemma_mask31(y); }
            Some(((x as u32) >> ((y & 31) as u32)) as i32)
        },
    }
}

/// The `long` operation `op`, or `None` on division by zero.
pub fn long_op(op: Binop, x: i64, y: i64) -> (r: Option<i64>)
    ensures
        r == long_binop(op, x, y),
{
    match op {
        Binop::Add => Some(x.wrapping_add(y)),
        Binop::Sub => Some(x.wrapping_sub(y)),
        Binop::Mul => Some(x.wrapping_mul(y)),
        Binop::Div => {
            if y == 0 {
                None
            } else if x == i64::MIN && y == -1 {
                Some(i64::MIN)
            } else {
                let (q, _) = div_rem64(x, y);
                Some(q)
            }
        },
        Binop::Rem => {
            if y == 0 {
                None
            } else if y == -1 {
                Some(0)
            } else {
                let (_, m) = div_rem64(x, y);
                Some(m)
            }
        },
        Binop::And => Some(x & y),
        Binop::Or => Some(x | y),
        Binop::Xor => Some(x ^ y),
        Binop::Shl => Some(x.wrapping_shl((y & 63) as u32)),
        Binop::Shr => Some(x.wrapping_shr((y & 63) as u32)),
        Binop::Ushr => {
            proof { lemma_mask63(y); }
            Some(((x as u64) >> ((y & 63) as u32)) as i64)
        },
    }
}

} // verus!
