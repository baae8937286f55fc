//! `java.lang` boxes: Integer, Long, Short, Byte, Boolean.

use vstd::prelude::*;

use crate::natives::{
    bool_of, bool_val, boxed, int_of, int_val, jstr, long_of, long_val, nat_post, new_str, nfe,
    pure_ok, str_result, three_way, three_way_i64, NativeFn, R, iae, throws,
};
use crate::error::NatErr;
use crate::object::Native;
use crate::parse::parse_in_range;
use crate::text::{signed_digits, unsigned_digits};
use crate::value::JValue;
use crate::vm::{payload_spec, NativeEntry, Vm};
use crate::natives::fresh_obj;

verus! {

/// Number of one bits.
pub open spec fn popcount(x: nat) -> nat
    decreases x,
{
    if x == 0 { 0 } else { x % 2 + popcount(x / 2) }
}

/// The largest power of two not above `x` (0 for 0).
pub open spec fn highest_one(x: nat) -> nat
    decreases x,
{
    if x <= 1 { x } else { 2 * highest_one(x / 2) }
}

proof fn lemma_popcount_le(x: nat)
    ensures
        popcount(x) <= x,
    decreases x,
{
    if x > 0 {
        lemma_popcount_le(x / 2);
    }
}

/// `bitCount` counts the one bits: none in 0, `k` in 2^k - 1, one more in
/// `2x + 1` than in `x`, and never more than the value itself.
pub proof fn law_bit_count(x: nat, k: nat)
    ensures
        popcount(0) == 0,
        popcount(2 * x + 1) == popcount(x) + 1,
        popcount(2 * x) == popcount(x),
        popcount(x) <= x,
        popcount((vstd::arithmetic::power2::pow2(k) - 1) as nat) == k,
    decreases k,
{
    assert((2 * x + 1) / 2 == x && (2 * x + 1) % 2 == 1);
    assert((2 * x) / 2 == x && (2 * x) % 2 == 0);
    lemma_popcount_le(x);
    if k > 0 {
        law_bit_count(0, (k - 1) as nat);
        vstd::arithmetic::power2::lemma_pow2_unfold(k);
        vstd::arithmetic::power2::lemma_pow2_pos((k - 1) as nat);
        let m = (vstd::arithmetic::power2::pow2((k - 1) as nat) - 1) as nat;
        assert((vstd::arithmetic::power2::pow2(k) - 1) as nat == 2 * m + 1);
        law_bit_count(m, (k - 1) as nat);
    } else {
        vstd::arithmetic::power2::lemma2_to64();
    }
}

/// `highestOneBit` is the power of two with `x`'s top bit: at most `x` and
/// more than half of it, and 0 only for 0.
pub proof fn law_highest_one_bit(x: nat)
    ensures
        x == 0 ==> highest_one(x) == 0,
        x > 0 ==> highest_one(x) <= x && x < 2 * highest_one(x)
            && exists|k: nat| #[trigger] vstd::arithmetic::power2::pow2(k) == highest_one(x),
    decreases x,
{
    if x > 1 {
        law_highest_one_bit(x / 2);
        let k = choose|k: nat| #[trigger] vstd::arithmetic::power2::pow2(k) == highest_one(x / 2);
        vstd::arithmetic::power2::lemma_pow2_unfold(k + 1);
        assert(vstd::arithmetic::power2::pow2(k + 1) == highest_one(x));
    } else if x == 1 {
        vstd::arithmetic::power2::lemma2_to64();
        assert(vstd::arithmetic::power2::pow2(0) == highest_one(x));
    }
}

/// `compare` and `signum` order their operands: -1 below, 0 equal, 1 above,
/// and swapping the operands negates the answer.
pub proof fn law_three_way(a: int, b: int)
    ensures
        three_way(a, b) == -three_way(b, a),
        (three_way(a, b) < 0 <==> a < b) && (three_way(a, b) == 0 <==> a == b) && (three_way(a, b) > 0 <==> a > b),
        -1 <= three_way(a, b) <= 1,
{
}

fn count_ones(x: u64) -> (r: u64)
    ensures
        r as nat == popcount(x as nat),
    decreases x,
{
    if x == 0 {
        0
    } else {
        let rest = count_ones(x / 2);
        proof { lemma_popcount_le((x / 2) as nat); }
        (x % 2) + rest
    }
}

fn highest_one_bit_u32(x: u32) -> (r: u32)
    ensures
        r as nat == highest_one(x as nat),
        r <= x,
    decreases x,
{
    if x <= 1 {
        x
    } else {
        let h = highest_one_bit_u32(x / 2);
        2 * h
    }
}

/// Boxes `v` as the class `desc` (`Integer`, `Short`, `Byte` or `Character`),
/// narrowing the value to the box's type.
pub fn box_int_value(vm: &mut Vm, desc: &str, v: JValue) -> (r: R)
    requires
        old(vm).wf(),
    ensures
        nat_post(old(vm), final(vm)),
        desc@ == "Ljava/lang/Integer;"@ ==> (r matches Ok(o) ==> fresh_obj(old(vm), final(vm), o, desc@, Native::IntBox(int_val(old(vm), v)))),
        desc@ == "Ljava/lang/Short;"@ ==> (r matches Ok(o) ==> fresh_obj(old(vm), final(vm), o, desc@, Native::ShortBox(int_val(old(vm), v) as i16))),
        desc@ == "Ljava/lang/Byte;"@ ==> (r matches Ok(o) ==> fresh_obj(old(vm), final(vm), o, desc@, Native::ByteBox(int_val(old(vm), v) as i8))),
        desc@ == "Ljava/lang/Character;"@ ==> (r matches Ok(o) ==> fresh_obj(old(vm), final(vm), o, desc@, Native::CharBox(int_val(old(vm), v) as u16))),
        (desc@ == "Ljava/lang/Integer;"@ || desc@ == "Ljava/lang/Short;"@ || desc@ == "Ljava/lang/Byte;"@
            || desc@ == "Ljava/lang/Character;"@) <==> !(r matches Err(NatErr::Throw(_))),
        r matches Err(NatErr::Throw(_)) ==> r is Err && throws(final(vm), r, "Ljava/lang/IllegalArgumentException;"@)
            || old(vm).arena.objects@.len() >= 0x7fff_ffff,
{
    let n = int_of(vm, v);
    proof {
        reveal_strlit("Ljava/lang/Integer;");
        reveal_strlit("Ljava/lang/Short;");
        reveal_strlit("Ljava/lang/Byte;");
        reveal_strlit("Ljava/lang/Character;");
        assert("Ljava/lang/Short;"@.len() == 17);
        assert("Ljava/lang/Integer;"@.len() == 19);
        assert("Ljava/lang/Byte;"@.len() == 16);
        assert("Ljava/lang/Short;"@ != "Ljava/lang/Integer;"@);
        assert("Ljava/lang/Byte;"@ != "Ljava/lang/Integer;"@);
        assert("Ljava/lang/Byte;"@ != "Ljava/lang/Short;"@);
        assert("Ljava/lang/Character;"@ != "Ljava/lang/Integer;"@);
        assert("Ljava/lang/Character;"@ != "Ljava/lang/Short;"@);
        assert("Ljava/lang/Character;"@ != "Ljava/lang/Byte;"@);
    }
    let native = if crate::value::str_eq(desc, "Ljava/lang/Integer;") {
        Native::IntBox(n)
    } else if crate::value::str_eq(desc, "Ljava/lang/Short;") {
        Native::ShortBox(n as i16)
    } else if crate::value::str_eq(desc, "Ljava/lang/Byte;") {
        Native::ByteBox(n as i8)
    } else if crate::value::str_eq(desc, "Ljava/lang/Character;") {
        Native::CharBox(n as u16)
    } else {
        return Err(iae(vm, "bad box class"));
    };
    boxed(vm, desc, native)
}

pub fn integer_value_of(vm: &mut Vm, args: &[JValue]) -> (r: R)
    requires
        old(vm).wf(),
        args@.len() >= 1,
    ensures
        nat_post(old(vm), final(vm)),
        r matches Ok(o) ==> fresh_obj(old(vm), final(vm), o, "Ljava/lang/Integer;"@, Native::IntBox(int_val(old(vm), args@[0]))),
{
    box_int_value(vm, "Ljava/lang/Integer;", args[0])
}

/// `Integer.parseInt(s, radix)`'s outcome for string `s`.
pub open spec fn int_parse(s: Seq<char>, radix: int) -> Option<int> {
    parse_in_range(s, radix, -0x8000_0000, 0x7fff_ffff)
}

/// Parses `s` as an `int` in base `radix`, throwing `NumberFormatException`.
pub fn parse_int_radix(vm: &mut Vm, s: &str, radix: u32) -> (r: Result<i32, NatErr>)
    requires
        old(vm).wf(),
    ensures
        nat_post(old(vm), final(vm)),
        r matches Ok(v) ==> int_parse(s@, radix as int) == Some(v as int) && *final(vm) == *old(vm),
        r is Err ==> int_parse(s@, radix as int) is None && r->Err_0 is Throw,
{
    match crate::parse::parse_signed(s, radix, 0x8000_0000, 0x7fff_ffff) {
        Some(v) => Ok(v as i32),
        None => {
            let msg = crate::value::concat("For input string: ", s);
            Err(nfe(vm, msg.as_str()))
        },
    }
}

/// `Long.parseLong(s, radix)`'s outcome for string `s`.
pub open spec fn long_parse(s: Seq<char>, radix: int) -> Option<int> {
    parse_in_range(s, radix, -0x8000_0000_0000_0000, 0x7fff_ffff_ffff_ffff)
}

/// Parses `s` as a `long` in base `radix`, throwing `NumberFormatException`.
pub fn parse_long_radix(vm: &mut Vm, s: &str, radix: u32) -> (r: Result<i64, NatErr>)
    requires
        old(vm).wf(),
    ensures
        nat_post(old(vm), final(vm)),
        r matches Ok(v) ==> long_parse(s@, radix as int) == Some(v as int) && *final(vm) == *old(vm),
        r is Err ==> long_parse(s@, radix as int) is None && r->Err_0 is Throw,
{
    match crate::parse::parse_signed(s, radix, 0x8000_0000_0000_0000u64, 0x7fff_ffff_ffff_ffffu64) {
        Some(v) => Ok(v),
        None => {
            let msg = crate::value::concat("For input string: ", s);
            Err(nfe(vm, msg.as_str()))
        },
    }
}

/// The string contents of a string argument.
pub open spec fn str_arg(vm: &Vm, v: JValue) -> Option<Seq<char>> {
    match payload_spec(vm, v) {
        Some(Native::Str(s)) => Some(s@),
        _ => None,
    }
}

pub fn integer_value_of_str(vm: &mut Vm, args: &[JValue]) -> (r: R)
    requires
        old(vm).wf(),
        args@.len() >= 1,
    ensures
        nat_post(old(vm), final(vm)),
        r matches Ok(o) ==> str_arg(old(vm), args@[0]) matches Some(s) && int_parse(s, 10) matches Some(n)
            && fresh_obj(old(vm), final(vm), o, "Ljava/lang/Integer;"@, Native::IntBox(n as i32)),
        str_arg(old(vm), args@[0]) is None ==> r is Err,
        str_arg(old(vm), args@[0]) matches Some(s) && int_parse(s, 10) is None ==> r is Err,
        r matches Err(NatErr::Throw(_)) <==> !(str_arg(old(vm), args@[0]) matches Some(s) && int_parse(s, 10) is Some),
{
    let s = jstr(vm, args[0])?;
    let n = parse_int_radix(vm, s.as_str(), 10)?;
    box_int_value(vm, "Ljava/lang/Integer;", JValue::Int(n))
}

pub fn integer_int_value(vm: &mut Vm, args: &[JValue]) -> (r: R)
    requires args@.len() >= 1,
    ensures pure_ok(old(vm), final(vm), r, JValue::Int(int_val(old(vm), args@[0]))),
{
    Ok(JValue::Int(int_of(vm, args[0])))
}

pub fn integer_long_value(vm: &mut Vm, args: &[JValue]) -> (r: R)
    requires args@.len() >= 1,
    ensures pure_ok(old(vm), final(vm), r, JValue::Long(int_val(old(vm), args@[0]) as i64)),
{
    Ok(JValue::Long(int_of(vm, args[0]) as i64))
}

pub fn integer_byte_value(vm: &mut Vm, args: &[JValue]) -> (r: R)
    requires args@.len() >= 1,
    ensures pure_ok(old(vm), final(vm), r, JValue::Int(int_val(old(vm), args@[0]) as i8 as i32)),
{
    Ok(JValue::Int(int_of(vm, args[0]) as i8 as i32))
}

pub fn integer_short_value(vm: &mut Vm, args: &[JValue]) -> (r: R)
    requires args@.len() >= 1,
    ensures pure_ok(old(vm), final(vm), r, JValue::Int(int_val(old(vm), args@[0]) as i16 as i32)),
{
    Ok(JValue::Int(int_of(vm, args[0]) as i16 as i32))
}

pub fn integer_equals(vm: &mut Vm, args: &[JValue]) -> (r: R)
    requires args@.len() >= 2,
    ensures pure_ok(old(vm), final(vm), r, JValue::Int(if int_val(old(vm), args@[0]) == int_val(old(vm), args@[1]) { 1 } else { 0 })),
{
    Ok(JValue::Int(if int_of(vm, args[0]) == int_of(vm, args[1]) { 1 } else { 0 }))
}

pub fn integer_hash_code(vm: &mut Vm, args: &[JValue]) -> (r: R)
    requires args@.len() >= 1,
    ensures pure_ok(old(vm), final(vm), r, JValue::Int(int_val(old(vm), args@[0]))),
{
    Ok(JValue::Int(int_of(vm, args[0])))
}

pub fn integer_to_string(vm: &mut Vm, args: &[JValue]) -> (r: R)
    requires
        old(vm).wf(),
        args@.len() >= 1,
    ensures
        nat_post(old(vm), final(vm)),
        r matches Ok(v) && str_result(old(vm), final(vm), v, signed_digits(int_val(old(vm), args@[0]) as int, 10)),
{
    let n = int_of(vm, args[0]);
    let s = crate::text::int_to_string(n, 10);
    Ok(new_str(vm, s.as_str()))
}

pub fn integer_compare_to(vm: &mut Vm, args: &[JValue]) -> (r: R)
    requires args@.len() >= 2,
    ensures pure_ok(old(vm), final(vm), r, JValue::Int(three_way(int_val(old(vm), args@[0]) as int, int_val(old(vm), args@[1]) as int))),
{
    Ok(JValue::Int(three_way_i64(int_of(vm, args[0]) as i64, int_of(vm, args[1]) as i64)))
}

pub fn integer_to_string_static(vm: &mut Vm, args: &[JValue]) -> (r: R)
    requires
        old(vm).wf(),
        args@.len() >= 1,
    ensures
        nat_post(old(vm), final(vm)),
        r matches Ok(v) && str_result(old(vm), final(vm), v, signed_digits(int_val(old(vm), args@[0]) as int, 10)),
{
    integer_to_string(vm, args)
}

pub fn integer_to_string_radix(vm: &mut Vm, args: &[JValue]) -> (r: R)
    requires
        old(vm).wf(),
        args@.len() >= 2,
    ensures
        nat_post(old(vm), final(vm)),
        r matches Ok(v) && str_result(old(vm), final(vm), v, signed_digits(int_val(old(vm), args@[0]) as int,
            if 2 <= int_val(old(vm), args@[1]) as u32 <= 36 { int_val(old(vm), args@[1]) as u32 as nat } else { 10 })),
{
    let n = int_of(vm, args[0]);
    let radix = int_of(vm, args[1]) as u32;
    let s = crate::text::int_to_string(n, radix);
    Ok(new_str(vm, s.as_str()))
}

pub fn integer_parse_int(vm: &mut Vm, args: &[JValue]) -> (r: R)
    requires
        old(vm).wf(),
        args@.len() >= 1,
    ensures
        nat_post(old(vm), final(vm)),
        ({
            let radix: int = if args@.len() > 1 { int_val(old(vm), args@[1]) as u32 as int } else { 10 };
            &&& (r matches Ok(v) ==> str_arg(old(vm), args@[0]) matches Some(s) && int_parse(s, radix) matches Some(n) && v == JValue::Int(n as i32))
            &&& (str_arg(old(vm), args@[0]) matches Some(s) ==> (r is Ok <==> int_parse(s, radix) is Some))
            &&& (str_arg(old(vm), args@[0]) is None ==> r is Err)
        }),
{
    let s = jstr(vm, args[0])?;
    let radix = if args.len() > 1 { int_of(vm, args[1]) as u32 } else { 10 };
    let n = parse_int_radix(vm, s.as_str(), radix)?;
    Ok(JValue::Int(n))
}

pub fn integer_to_hex(vm: &mut Vm, args: &[JValue]) -> (r: R)
    requires
        old(vm).wf(),
        args@.len() >= 1,
    ensures
        nat_post(old(vm), final(vm)),
        r matches Ok(v) && str_result(old(vm), final(vm), v, unsigned_digits(int_val(old(vm), args@[0]) as u32 as nat, 16)),
{
    let n = int_of(vm, args[0]) as u32;
    let s = crate::text::fmt_unsigned(n as u64, 16);
    Ok(new_str(vm, s.as_str()))
}

pub fn integer_to_binary(vm: &mut Vm, args: &[JValue]) -> (r: R)
    requires
        old(vm).wf(),
        args@.len() >= 1,
    ensures
        nat_post(old(vm), final(vm)),
        r matches Ok(v) && str_result(old(vm), final(vm), v, unsigned_digits(int_val(old(vm), args@[0]) as u32 as nat, 2)),
{
    let n = int_of(vm, args[0]) as u32;
    let s = crate::text::fmt_unsigned(n as u64, 2);
    Ok(new_str(vm, s.as_str()))
}

pub fn integer_to_octal(vm: &mut Vm, args: &[JValue]) -> (r: R)
    requires
        old(vm).wf(),
        args@.len() >= 1,
    ensures
        nat_post(old(vm), final(vm)),
        r matches Ok(v) && str_result(old(vm), final(vm), v, unsigned_digits(int_val(old(vm), args@[0]) as u32 as nat, 8)),
{
    let n = int_of(vm, args[0]) as u32;
    let s = crate::text::fmt_unsigned(n as u64, 8);
    Ok(new_str(vm, s.as_str()))
}

pub fn integer_compare(vm: &mut Vm, args: &[JValue]) -> (r: R)
    requires args@.len() >= 2,
    ensures pure_ok(old(vm), final(vm), r, JValue::Int(three_way(int_val(old(vm), args@[0]) as int, int_val(old(vm), args@[1]) as int))),
{
    integer_compare_to(vm, args)
}

pub fn integer_bit_count(vm: &mut Vm, args: &[JValue]) -> (r: R)
    requires args@.len() >= 1,
    ensures pure_ok(old(vm), final(vm), r, JValue::Int(popcount(int_val(old(vm), args@[0]) as u32 as nat) as i32)),
{
    let n = int_of(vm, args[0]) as u32;
    Ok(JValue::Int(count_ones(n as u64) as i32))
}

pub fn integer_highest_one_bit(vm: &mut Vm, args: &[JValue]) -> (r: R)
    requires args@.len() >= 1,
    ensures pure_ok(old(vm), final(vm), r, JValue::Int(highest_one(int_val(old(vm), args@[0]) as u32 as nat) as u32 as i32)),
{
    let v = int_of(vm, args[0]) as u32;
    Ok(JValue::Int(highest_one_bit_u32(v) as i32))
}

pub fn integer_signum(vm: &mut Vm, args: &[JValue]) -> (r: R)
    requires args@.len() >= 1,
    ensures pure_ok(old(vm), final(vm), r, JValue::Int(three_way(int_val(old(vm), args@[0]) as int, 0))),
{
    Ok(JValue::Int(three_way_i64(int_of(vm, args[0]) as i64, 0)))
}

// ---- java.lang.Long ----

pub fn long_value_of(vm: &mut Vm, args: &[JValue]) -> (r: R)
    requires
        old(vm).wf(),
        args@.len() >= 1,
    ensures
        nat_post(old(vm), final(vm)),
        r matches Ok(o) ==> fresh_obj(old(vm), final(vm), o, "Ljava/lang/Long;"@, Native::LongBox(long_val(old(vm), args@[0]))),
{
    let n = long_of(vm, args[0]);
    boxed(vm, "Ljava/lang/Long;", Native::LongBox(n))
}

pub fn long_value_of_str(vm: &mut Vm, args: &[JValue]) -> (r: R)
    requires
        old(vm).wf(),
        args@.len() >= 1,
    ensures
        nat_post(old(vm), final(vm)),
        r matches Ok(o) ==> str_arg(old(vm), args@[0]) matches Some(s) && long_parse(s, 10) matches Some(n)
            && fresh_obj(old(vm), final(vm), o, "Ljava/lang/Long;"@, Native::LongBox(n as i64)),
        str_arg(old(vm), args@[0]) is None ==> r is Err,
        str_arg(old(vm), args@[0]) matches Some(s) && long_parse(s, 10) is None ==> r is Err,
        r matches Err(NatErr::Throw(_)) <==> !(str_arg(old(vm), args@[0]) matches Some(s) && long_parse(s, 10) is Some),
{
    let s = jstr(vm, args[0])?;
    let n = parse_long_radix(vm, s.as_str(), 10)?;
    boxed(vm, "Ljava/lang/Long;", Native::LongBox(n))
}

pub fn long_int_value(vm: &mut Vm, args: &[JValue]) -> (r: R)
    requires args@.len() >= 1,
    ensures pure_ok(old(vm), final(vm), r, JValue::Int(long_val(old(vm), args@[0]) as i32)),
{
    Ok(JValue::Int(long_of(vm, args[0]) as i32))
}

pub fn long_long_value(vm: &mut Vm, args: &[JValue]) -> (r: R)
    requires args@.len() >= 1,
    ensures pure_ok(old(vm), final(vm), r, JValue::Long(long_val(old(vm), args@[0]))),
{
    Ok(JValue::Long(long_of(vm, args[0])))
}

pub fn long_byte_value(vm: &mut Vm, args: &[JValue]) -> (r: R)
    requires args@.len() >= 1,
    ensures pure_ok(old(vm), final(vm), r, JValue::Int(long_val(old(vm), args@[0]) as i8 as i32)),
{
    Ok(JValue::Int(long_of(vm, args[0]) as i8 as i32))
}

pub fn long_short_value(vm: &mut Vm, args: &[JValue]) -> (r: R)
    requires args@.len() >= 1,
    ensures pure_ok(old(vm), final(vm), r, JValue::Int(long_val(old(vm), args@[0]) as i16 as i32)),
{
    Ok(JValue::Int(long_of(vm, args[0]) as i16 as i32))
}

pub fn long_equals(vm: &mut Vm, args: &[JValue]) -> (r: R)
    requires args@.len() >= 2,
    ensures pure_ok(old(vm), final(vm), r, JValue::Int(if long_val(old(vm), args@[0]) == long_val(old(vm), args@[1]) { 1 } else { 0 })),
{
    Ok(JValue::Int(if long_of(vm, args[0]) == long_of(vm, args[1]) { 1 } else { 0 }))
}

pub fn long_hash_code(vm: &mut Vm, args: &[JValue]) -> (r: R)
    requires args@.len() >= 1,
    ensures pure_ok(old(vm), final(vm), r, JValue::Int((long_val(old(vm), args@[0]) ^ (long_val(old(vm), args@[0]) >> 32u64)) as i32)),
{
    let l = long_of(vm, args[0]);
    Ok(JValue::Int((l ^ (l >> 32u64)) as i32))
}

pub fn long_to_string(vm: &mut Vm, args: &[JValue]) -> (r: R)
    requires
        old(vm).wf(),
        args@.len() >= 1,
    ensures
        nat_post(old(vm), final(vm)),
        r matches Ok(v) && str_result(old(vm), final(vm), v, signed_digits(long_val(old(vm), args@[0]) as int, 10)),
{
    let n = long_of(vm, args[0]);
    let s = crate::text::long_to_string(n, 10);
    Ok(new_str(vm, s.as_str()))
}

pub fn long_to_string_static(vm: &mut Vm, args: &[JValue]) -> (r: R)
    requires
        old(vm).wf(),
        args@.len() >= 1,
    ensures
        nat_post(old(vm), final(vm)),
        r matches Ok(v) && str_result(old(vm), final(vm), v, signed_digits(long_val(old(vm), args@[0]) as int, 10)),
{
    long_to_string(vm, args)
}

pub fn long_to_string_radix(vm: &mut Vm, args: &[JValue]) -> (r: R)
    requires
        old(vm).wf(),
        args@.len() >= 2,
    ensures
        nat_post(old(vm), final(vm)),
        r matches Ok(v) && str_result(old(vm), final(vm), v, signed_digits(long_val(old(vm), args@[0]) as int,
            if 2 <= int_val(old(vm), args@[1]) as u32 <= 36 { int_val(old(vm), args@[1]) as u32 as nat } else { 10 })),
{
    let n = long_of(vm, args[0]);
    let radix = int_of(vm, args[1]) as u32;
    let s = crate::text::long_to_string(n, radix);
    Ok(new_str(vm, s.as_str()))
}

pub fn long_parse_long(vm: &mut Vm, args: &[JValue]) -> (r: R)
    requires
        old(vm).wf(),
        args@.len() >= 1,
    ensures
        nat_post(old(vm), final(vm)),
        ({
            let radix: int = if args@.len() > 1 { int_val(old(vm), args@[1]) as u32 as int } else { 10 };
            &&& (r matches Ok(v) ==> str_arg(old(vm), args@[0]) matches Some(s) && long_parse(s, radix) matches Some(n) && v == JValue::Long(n as i64))
            &&& (str_arg(old(vm), args@[0]) matches Some(s) ==> (r is Ok <==> long_parse(s, radix) is Some))
            &&& (str_arg(old(vm), args@[0]) is None ==> r is Err)
        }),
{
    let s = jstr(vm, args[0])?;
    let radix = if args.len() > 1 { int_of(vm, args[1]) as u32 } else { 10 };
    let n = parse_long_radix(vm, s.as_str(), radix)?;
    Ok(JValue::Long(n))
}

pub fn long_to_hex(vm: &mut Vm, args: &[JValue]) -> (r: R)
    requires
        old(vm).wf(),
        args@.len() >= 1,
    ensures
        nat_post(old(vm), final(vm)),
        r matches Ok(v) && str_result(old(vm), final(vm), v, unsigned_digits(long_val(old(vm), args@[0]) as u64 as nat, 16)),
{
    let n = long_of(vm, args[0]) as u64;
    let s = crate::text::fmt_unsigned(n, 16);
    Ok(new_str(vm, s.as_str()))
}

pub fn long_compare_to(vm: &mut Vm, args: &[JValue]) -> (r: R)
    requires args@.len() >= 2,
    ensures pure_ok(old(vm), final(vm), r, JValue::Int(three_way(long_val(old(vm), args@[0]) as int, long_val(old(vm), args@[1]) as int))),
{
    Ok(JValue::Int(three_way_i64(long_of(vm, args[0]), long_of(vm, args[1]))))
}

pub fn long_compare(vm: &mut Vm, args: &[JValue]) -> (r: R)
    requires args@.len() >= 2,
    ensures pure_ok(old(vm), final(vm), r, JValue::Int(three_way(long_val(old(vm), args@[0]) as int, long_val(old(vm), args@[1]) as int))),
{
    long_compare_to(vm, args)
}

pub fn long_bit_count(vm: &mut Vm, args: &[JValue]) -> (r: R)
    requires args@.len() >= 1,
    ensures pure_ok(old(vm), final(vm), r, JValue::Int(popcount(long_val(old(vm), args@[0]) as u64 as nat) as i32)),
{
    let n = long_of(vm, args[0]) as u64;
    Ok(JValue::Int(count_ones(n) as i32))
}

pub fn long_signum(vm: &mut Vm, args: &[JValue]) -> (r: R)
    requires args@.len() >= 1,
    ensures pure_ok(old(vm), final(vm), r, JValue::Long(three_way(long_val(old(vm), args@[0]) as int, 0) as i64)),
{
    Ok(JValue::Long(three_way_i64(long_of(vm, args[0]), 0) as i64))
}

// ---- java.lang.Short / java.lang.Byte ----

pub fn short_value_of(vm: &mut Vm, args: &[JValue]) -> (r: R)
    requires
        old(vm).wf(),
        args@.len() >= 1,
    ensures
        nat_post(old(vm), final(vm)),
        r matches Ok(o) ==> fresh_obj(old(vm), final(vm), o, "Ljava/lang/Short;"@, Native::ShortBox(int_val(old(vm), args@[0]) as i16)),
{
    box_int_value(vm, "Ljava/lang/Short;", args[0])
}

/// Parses an integer argument that must fit in `lo..=hi`.
fn parse_narrow(vm: &mut Vm, args: &[JValue], lo: i32, hi: i32) -> (r: R)
    requires
        old(vm).wf(),
        args@.len() >= 1,
    ensures
        nat_post(old(vm), final(vm)),
        ({
            let radix: int = if args@.len() > 1 { int_val(old(vm), args@[1]) as u32 as int } else { 10 };
            &&& (r matches Ok(v) ==> str_arg(old(vm), args@[0]) matches Some(s) && int_parse(s, radix) matches Some(n)
                && lo <= n <= hi && v == JValue::Int(n as i32))
            &&& (str_arg(old(vm), args@[0]) matches Some(s) ==> (r is Ok <==> (int_parse(s, radix) matches Some(n) && lo <= n <= hi)))
            &&& (str_arg(old(vm), args@[0]) is None ==> r is Err)
        }),
{
    let s = jstr(vm, args[0])?;
    let radix = if args.len() > 1 { int_of(vm, args[1]) as u32 } else { 10 };
    let n = parse_int_radix(vm, s.as_str(), radix)?;
    if n < lo || n > hi {
        let msg = crate::value::concat("Value out of range: ", s.as_str());
        return Err(nfe(vm, msg.as_str()));
    }
    Ok(JValue::Int(n))
}

pub fn short_parse_short(vm: &mut Vm, args: &[JValue]) -> (r: R)
    requires
        old(vm).wf(),
        args@.len() >= 1,
    ensures
        nat_post(old(vm), final(vm)),
        ({
            let radix: int = if args@.len() > 1 { int_val(old(vm), args@[1]) as u32 as int } else { 10 };
            &&& (r matches Ok(v) ==> str_arg(old(vm), args@[0]) matches Some(s) && int_parse(s, radix) matches Some(n)
                && -32768 <= n <= 32767 && v == JValue::Int(n as i32))
            &&& (str_arg(old(vm), args@[0]) matches Some(s) ==> (r is Ok <==> (int_parse(s, radix) matches Some(n) && -32768 <= n <= 32767)))
            &&& (str_arg(old(vm), args@[0]) is None ==> r is Err)
        }),
{
    parse_narrow(vm, args, -32768, 32767)
}

pub fn short_to_string(vm: &mut Vm, args: &[JValue]) -> (r: R)
    requires
        old(vm).wf(),
        args@.len() >= 1,
    ensures
        nat_post(old(vm), final(vm)),
        r matches Ok(v) && str_result(old(vm), final(vm), v, signed_digits(int_val(old(vm), args@[0]) as int, 10)),
{
    integer_to_string(vm, args)
}

pub fn short_compare_to(vm: &mut Vm, args: &[JValue]) -> (r: R)
    requires args@.len() >= 2,
    ensures pure_ok(old(vm), final(vm), r, JValue::Int(three_way(int_val(old(vm), args@[0]) as int, int_val(old(vm), args@[1]) as int))),
{
    integer_compare_to(vm, args)
}

pub fn byte_value_of(vm: &mut Vm, args: &[JValue]) -> (r: R)
    requires
        old(vm).wf(),
        args@.len() >= 1,
    ensures
        nat_post(old(vm), final(vm)),
        r matches Ok(o) ==> fresh_obj(old(vm), final(vm), o, "Ljava/lang/Byte;"@, Native::ByteBox(int_val(old(vm), args@[0]) as i8)),
{
    box_int_value(vm, "Ljava/lang/Byte;", args[0])
}

pub fn byte_parse_byte(vm: &mut Vm, args: &[JValue]) -> (r: R)
    requires
        old(vm).wf(),
        args@.len() >= 1,
    ensures
        nat_post(old(vm), final(vm)),
        ({
            let radix: int = if args@.len() > 1 { int_val(old(vm), args@[1]) as u32 as int } else { 10 };
            &&& (r matches Ok(v) ==> str_arg(old(vm), args@[0]) matches Some(s) && int_parse(s, radix) matches Some(n)
                && -128 <= n <= 127 && v == JValue::Int(n as i32))
            &&& (str_arg(old(vm), args@[0]) matches Some(s) ==> (r is Ok <==> (int_parse(s, radix) matches Some(n) && -128 <= n <= 127)))
            &&& (str_arg(old(vm), args@[0]) is None ==> r is Err)
        }),
{
    parse_narrow(vm, args, -128, 127)
}

pub fn byte_to_string(vm: &mut Vm, args: &[JValue]) -> (r: R)
    requires
        old(vm).wf(),
        args@.len() >= 1,
    ensures
        nat_post(old(vm), final(vm)),
        r matches Ok(v) && str_result(old(vm), final(vm), v, signed_digits(int_val(old(vm), args@[0]) as int, 10)),
{
    integer_to_string(vm, args)
}

pub fn byte_compare_to(vm: &mut Vm, args: &[JValue]) -> (r: R)
    requires args@.len() >= 2,
    ensures pure_ok(old(vm), final(vm), r, JValue::Int(three_way(int_val(old(vm), args@[0]) as int, int_val(old(vm), args@[1]) as int))),
{
    integer_compare_to(vm, args)
}

// ---- java.lang.Boolean ----

pub fn bool_value_of(vm: &mut Vm, args: &[JValue]) -> (r: R)
    requires
        old(vm).wf(),
        args@.len() >= 1,
    ensures
        nat_post(old(vm), final(vm)),
        r matches Ok(o) ==> fresh_obj(old(vm), final(vm), o, "Ljava/lang/Boolean;"@, Native::BoolBox(bool_val(old(vm), args@[0]))),
{
    let b = bool_of(vm, args[0]);
    boxed(vm, "Ljava/lang/Boolean;", Native::BoolBox(b))
}

pub fn bool_boolean_value(vm: &mut Vm, args: &[JValue]) -> (r: R)
    requires args@.len() >= 1,
    ensures pure_ok(old(vm), final(vm), r, JValue::Int(if bool_val(old(vm), args@[0]) { 1 } else { 0 })),
{
    Ok(JValue::Int(if bool_of(vm, args[0]) { 1 } else { 0 }))
}

pub fn bool_equals(vm: &mut Vm, args: &[JValue]) -> (r: R)
    requires args@.len() >= 2,
    ensures pure_ok(old(vm), final(vm), r, JValue::Int(if bool_val(old(vm), args@[0]) == bool_val(old(vm), args@[1]) { 1 } else { 0 })),
{
    Ok(JValue::Int(if bool_of(vm, args[0]) == bool_of(vm, args[1]) { 1 } else { 0 }))
}

pub fn bool_hash_code(vm: &mut Vm, args: &[JValue]) -> (r: R)
    requires args@.len() >= 1,
    ensures pure_ok(old(vm), final(vm), r, JValue::Int(if bool_val(old(vm), args@[0]) { 1231 } else { 1237 })),
{
    Ok(JValue::Int(if bool_of(vm, args[0]) { 1231 } else { 1237 }))
}

pub fn bool_to_string(vm: &mut Vm, args: &[JValue]) -> (r: R)
    requires
        old(vm).wf(),
        args@.len() >= 1,
    ensures
        nat_post(old(vm), final(vm)),
        r matches Ok(v) && str_result(old(vm), final(vm), v, if bool_val(old(vm), args@[0]) { "true"@ } else { "false"@ }),
{
    let b = bool_of(vm, args[0]);
    Ok(new_str(vm, if b { "true" } else { "false" }))
}

pub fn bool_to_string_static(vm: &mut Vm, args: &[JValue]) -> (r: R)
    requires
        old(vm).wf(),
        args@.len() >= 1,
    ensures
        nat_post(old(vm), final(vm)),
        r matches Ok(v) && str_result(old(vm), final(vm), v, if bool_val(old(vm), args@[0]) { "true"@ } else { "false"@ }),
{
    bool_to_string(vm, args)
}

/// ASCII case-insensitive equality of `s` with `true`.
pub open spec fn is_true_word(s: Seq<char>) -> bool {
    &&& s.len() == 4
    &&& (s[0] == 't' || s[0] == 'T')
    &&& (s[1] == 'r' || s[1] == 'R')
    &&& (s[2] == 'u' || s[2] == 'U')
    &&& (s[3] == 'e' || s[3] == 'E')
}

pub fn bool_parse_boolean(vm: &mut Vm, args: &[JValue]) -> (r: R)
    requires
        old(vm).wf(),
        args@.len() >= 1,
    ensures
        nat_post(old(vm), final(vm)),
        r matches Ok(v) ==> str_arg(old(vm), args@[0]) matches Some(s) && v == JValue::Int(if is_true_word(s) { 1 } else { 0 }),
        (str_arg(old(vm), args@[0]) is Some) <==> r is Ok,
{
    let s = jstr(vm, args[0])?;
    let t = s.as_str();
    let ok = t.unicode_len() == 4 && {
        let c0 = t.get_char(0);
        let c1 = t.get_char(1);
        let c2 = t.get_char(2);
        let c3 = t.get_char(3);
        (c0 == 't' || c0 == 'T') && (c1 == 'r' || c1 == 'R') && (c2 == 'u' || c2 == 'U') && (c3 == 'e' || c3 == 'E')
    };
    Ok(JValue::Int(if ok { 1 } else { 0 }))
}

pub fn bool_compare_to(vm: &mut Vm, args: &[JValue]) -> (r: R)
    requires args@.len() >= 2,
    ensures pure_ok(old(vm), final(vm), r, JValue::Int(three_way(
        if bool_val(old(vm), args@[0]) { 1 } else { 0 }, if bool_val(old(vm), args@[1]) { 1 } else { 0 }))),
{
    let a: i64 = if bool_of(vm, args[0]) { 1 } else { 0 };
    let b: i64 = if bool_of(vm, args[1]) { 1 } else { 0 };
    Ok(JValue::Int(three_way_i64(a, b)))
}


} // verus!
