//! `java.lang.Character` host shims.

use vstd::prelude::*;

use crate::natives::{int_of, int_val, nat_post, new_str, pure_ok, str_result, three_way, three_way_i64, R};
use crate::natives::lang::box_int_value;
use crate::natives::fresh_obj;
use crate::object::Native;
use crate::value::JValue;
use crate::vm::Vm;

verus! {

/// `x` is a Unicode scalar value (a code point that is not a surrogate).
pub open spec fn is_scalar(x: u32) -> bool {
    x < 0xD800 || (0xE000 <= x && x <= 0x10FFFF)
}

/// Whether `c` is alphabetic per the Unicode tables of the standard library.
pub uninterp spec fn unicode_alphabetic(c: char) -> bool;

/// Whether `c` is alphanumeric per the Unicode tables of the standard library.
pub uninterp spec fn unicode_alphanumeric(c: char) -> bool;

/// Whether `c` is white space per the Unicode tables of the standard library.
pub uninterp spec fn unicode_whitespace(c: char) -> bool;

/// Whether `c` is upper case per the Unicode tables of the standard library.
pub uninterp spec fn unicode_uppercase(c: char) -> bool;

/// Whether `c` is lower case per the Unicode tables of the standard library.
pub uninterp spec fn unicode_lowercase(c: char) -> bool;

/// The first character of the upper-case mapping of `c`.
pub uninterp spec fn unicode_upper_first(c: char) -> Option<char>;

/// The first character of the lower-case mapping of `c`.
pub uninterp spec fn unicode_lower_first(c: char) -> Option<char>;

/// `char::from_u32`: the character with code `x`, when `x` is a scalar value.
#[verifier::external_body]
fn char_from_u32(x: u32) -> (r: Option<char>)
    ensures
        r is Some <==> is_scalar(x),
        r matches Some(c) ==> c as u32 == x,
{
    char::from_u32(x)
}

/// The character with scalar code `x`.
pub fn code_to_char(x: u32) -> (r: char)
    requires
        is_scalar(x),
    ensures
        r == char_of_code(x)->Some_0,
{
    match char_from_u32(x) {
        Some(c) => {
            proof { lemma_char_code_unique(c, x as char); }
            c
        },
        None => '\u{FFFD}',
    }
}

/// `char::is_alphabetic`.
#[verifier::external_body]
fn std_is_alphabetic(c: char) -> (r: bool)
    ensures
        r == unicode_alphabetic(c),
{
    c.is_alphabetic()
}

/// `char::is_alphanumeric`.
#[verifier::external_body]
fn std_is_alphanumeric(c: char) -> (r: bool)
    ensures
        r == unicode_alphanumeric(c),
{
    c.is_alphanumeric()
}

/// `char::is_whitespace`.
#[verifier::external_body]
fn std_is_whitespace(c: char) -> (r: bool)
    ensures
        r == unicode_whitespace(c),
{
    c.is_whitespace()
}

/// `char::is_uppercase`.
#[verifier::external_body]
fn std_is_uppercase(c: char) -> (r: bool)
    ensures
        r == unicode_uppercase(c),
{
    c.is_uppercase()
}

/// `char::is_lowercase`.
#[verifier::external_body]
fn std_is_lowercase(c: char) -> (r: bool)
    ensures
        r == unicode_lowercase(c),
{
    c.is_lowercase()
}

/// `char::to_uppercase`, first character of the mapping.
#[verifier::external_body]
fn char_to_uppercase_first(c: char) -> (r: Option<char>)
    ensures
        r == unicode_upper_first(c),
{
    c.to_uppercase().next()
}

/// `char::to_lowercase`, first character of the mapping.
#[verifier::external_body]
fn char_to_lowercase_first(c: char) -> (r: Option<char>)
    ensures
        r == unicode_lower_first(c),
{
    c.to_lowercase().next()
}

/// The character a code stands for, if it is a scalar value.
pub open spec fn char_of_code(x: u32) -> Option<char> {
    if is_scalar(x) { Some(x as char) } else { None }
}

proof fn lemma_char_code_unique(c: char, d: char)
    requires
        c as u32 == d as u32,
    ensures
        c == d,
{
}

pub fn char_value_of(vm: &mut Vm, args: &[JValue]) -> (r: R)
    requires
        old(vm).wf(),
        args@.len() >= 1,
    ensures
        nat_post(old(vm), final(vm)),
        r matches Ok(o) ==> fresh_obj(old(vm), final(vm), o, "Ljava/lang/Character;"@, Native::CharBox(int_val(old(vm), args@[0]) as u16)),
{
    proof { reveal_strlit("Ljava/lang/Character;"); }
    box_int_value(vm, "Ljava/lang/Character;", args[0])
}

pub fn char_char_value(vm: &mut Vm, args: &[JValue]) -> (r: R)
    requires args@.len() >= 1,
    ensures pure_ok(old(vm), final(vm), r, JValue::Int(int_val(old(vm), args@[0]))),
{
    Ok(JValue::Int(int_of(vm, args[0])))
}

pub fn char_equals(vm: &mut Vm, args: &[JValue]) -> (r: R)
    requires args@.len() >= 2,
    ensures pure_ok(old(vm), final(vm), r, JValue::Int(if int_val(old(vm), args@[0]) == int_val(old(vm), args@[1]) { 1 } else { 0 })),
{
    Ok(JValue::Int(if int_of(vm, args[0]) == int_of(vm, args[1]) { 1 } else { 0 }))
}

pub fn char_hash_code(vm: &mut Vm, args: &[JValue]) -> (r: R)
    requires args@.len() >= 1,
    ensures pure_ok(old(vm), final(vm), r, JValue::Int(int_val(old(vm), args@[0]))),
{
    Ok(JValue::Int(int_of(vm, args[0])))
}

/// The text of one UTF-16 code unit: the character itself, or U+FFFD for a
/// lone surrogate.
pub open spec fn unit_text(u: u16) -> Seq<char> {
    if is_scalar(u as u32) { seq![char_of_code(u as u32)->Some_0] } else { seq!['\u{FFFD}'] }
}

pub fn char_to_string(vm: &mut Vm, args: &[JValue]) -> (r: R)
    requires
        old(vm).wf(),
        args@.len() >= 1,
    ensures
        nat_post(old(vm), final(vm)),
        r matches Ok(v) && str_result(old(vm), final(vm), v, unit_text(int_val(old(vm), args@[0]) as u16)),
{
    let u = int_of(vm, args[0]) as u16;
    let mut s = String::new();
    match char_from_u32(u as u32) {
        Some(c) => {
            crate::value::push_char(&mut s, c);
            proof {
                let d = char_of_code(u as u32)->Some_0;
                lemma_char_code_unique(c, d);
            }
        },
        None => crate::value::push_char(&mut s, '\u{FFFD}'),
    }
    assert(s@ =~= unit_text(u));
    Ok(new_str(vm, s.as_str()))
}

pub fn char_to_string_static(vm: &mut Vm, args: &[JValue]) -> (r: R)
    requires
        old(vm).wf(),
        args@.len() >= 1,
    ensures
        nat_post(old(vm), final(vm)),
        r matches Ok(v) && str_result(old(vm), final(vm), v, unit_text(int_val(old(vm), args@[0]) as u16)),
{
    char_to_string(vm, args)
}

pub fn char_compare_to(vm: &mut Vm, args: &[JValue]) -> (r: R)
    requires args@.len() >= 2,
    ensures pure_ok(old(vm), final(vm), r, JValue::Int(three_way(int_val(old(vm), args@[0]) as int, int_val(old(vm), args@[1]) as int))),
{
    Ok(JValue::Int(three_way_i64(int_of(vm, args[0]) as i64, int_of(vm, args[1]) as i64)))
}

pub fn char_is_digit(vm: &mut Vm, args: &[JValue]) -> (r: R)
    requires args@.len() >= 1,
    ensures pure_ok(old(vm), final(vm), r, JValue::Int(
        if 0x30 <= int_val(old(vm), args@[0]) as u32 <= 0x39 { 1 } else { 0 })),
{
    let c = int_of(vm, args[0]) as u32;
    Ok(JValue::Int(if 0x30 <= c && c <= 0x39 { 1 } else { 0 }))
}

/// Applies a character-class test to the code an argument carries.
fn code_test(x: u32, which: u8) -> (r: bool)
    ensures
        which == 0 ==> r == (is_scalar(x) && unicode_alphabetic(char_of_code(x)->Some_0)),
        which == 1 ==> r == (is_scalar(x) && unicode_alphanumeric(char_of_code(x)->Some_0)),
        which == 2 ==> r == (is_scalar(x) && unicode_whitespace(char_of_code(x)->Some_0)),
        which == 3 ==> r == (is_scalar(x) && unicode_uppercase(char_of_code(x)->Some_0)),
        which >= 4 ==> r == (is_scalar(x) && unicode_lowercase(char_of_code(x)->Some_0)),
{
    match char_from_u32(x) {
        Some(c) => {
            proof { lemma_char_code_unique(c, char_of_code(x)->Some_0); }
            if which == 0 {
                std_is_alphabetic(c)
            } else if which == 1 {
                std_is_alphanumeric(c)
            } else if which == 2 {
                std_is_whitespace(c)
            } else if which == 3 {
                std_is_uppercase(c)
            } else {
                std_is_lowercase(c)
            }
        },
        None => false,
    }
}

pub fn char_is_letter(vm: &mut Vm, args: &[JValue]) -> (r: R)
    requires args@.len() >= 1,
    ensures pure_ok(old(vm), final(vm), r, JValue::Int(if is_scalar(int_val(old(vm), args@[0]) as u32)
        && unicode_alphabetic(char_of_code(int_val(old(vm), args@[0]) as u32)->Some_0) { 1 } else { 0 })),
{
    let c = int_of(vm, args[0]) as u32;
    Ok(JValue::Int(if code_test(c, 0) { 1 } else { 0 }))
}

pub fn char_is_letter_or_digit(vm: &mut Vm, args: &[JValue]) -> (r: R)
    requires args@.len() >= 1,
    ensures pure_ok(old(vm), final(vm), r, JValue::Int(if is_scalar(int_val(old(vm), args@[0]) as u32)
        && unicode_alphanumeric(char_of_code(int_val(old(vm), args@[0]) as u32)->Some_0) { 1 } else { 0 })),
{
    let c = int_of(vm, args[0]) as u32;
    Ok(JValue::Int(if code_test(c, 1) { 1 } else { 0 }))
}

pub fn char_is_whitespace(vm: &mut Vm, args: &[JValue]) -> (r: R)
    requires args@.len() >= 1,
    ensures pure_ok(old(vm), final(vm), r, JValue::Int(if is_scalar(int_val(old(vm), args@[0]) as u32)
        && unicode_whitespace(char_of_code(int_val(old(vm), args@[0]) as u32)->Some_0) { 1 } else { 0 })),
{
    let c = int_of(vm, args[0]) as u32;
    Ok(JValue::Int(if code_test(c, 2) { 1 } else { 0 }))
}

pub fn char_is_upper(vm: &mut Vm, args: &[JValue]) -> (r: R)
    requires args@.len() >= 1,
    ensures pure_ok(old(vm), final(vm), r, JValue::Int(if is_scalar(int_val(old(vm), args@[0]) as u32)
        && unicode_uppercase(char_of_code(int_val(old(vm), args@[0]) as u32)->Some_0) { 1 } else { 0 })),
{
    let c = int_of(vm, args[0]) as u32;
    Ok(JValue::Int(if code_test(c, 3) { 1 } else { 0 }))
}

pub fn char_is_lower(vm: &mut Vm, args: &[JValue]) -> (r: R)
    requires args@.len() >= 1,
    ensures pure_ok(old(vm), final(vm), r, JValue::Int(if is_scalar(int_val(old(vm), args@[0]) as u32)
        && unicode_lowercase(char_of_code(int_val(old(vm), args@[0]) as u32)->Some_0) { 1 } else { 0 })),
{
    let c = int_of(vm, args[0]) as u32;
    Ok(JValue::Int(if code_test(c, 4) { 1 } else { 0 }))
}

/// Case mapping of a code as `Character.toUpperCase`/`toLowerCase` do it:
/// the first character of the mapping, truncated to 16 bits; a code that is
/// not a scalar value (or maps to nothing) is kept.
pub open spec fn case_mapped(x: u32, upper: bool) -> i32 {
    let mapped: u32 = if is_scalar(x) {
        match (if upper { unicode_upper_first(char_of_code(x)->Some_0) } else { unicode_lower_first(char_of_code(x)->Some_0) }) {
            Some(m) => m as u32,
            None => x,
        }
    } else {
        x
    };
    mapped as u16 as i32
}

fn map_case(x: u32, upper: bool) -> (r: i32)
    ensures
        r == case_mapped(x, upper),
{
    let mapped: u32 = match char_from_u32(x) {
        Some(c) => {
            proof { lemma_char_code_unique(c, char_of_code(x)->Some_0); }
            let m = if upper { char_to_uppercase_first(c) } else { char_to_lowercase_first(c) };
            match m {
                Some(m) => m as u32,
                None => x,
            }
        },
        None => x,
    };
    mapped as u16 as i32
}

pub fn char_to_upper(vm: &mut Vm, args: &[JValue]) -> (r: R)
    requires args@.len() >= 1,
    ensures pure_ok(old(vm), final(vm), r, JValue::Int(case_mapped(int_val(old(vm), args@[0]) as u32, true))),
{
    let c = int_of(vm, args[0]) as u32;
    Ok(JValue::Int(map_case(c, true)))
}

pub fn char_to_lower(vm: &mut Vm, args: &[JValue]) -> (r: R)
    requires args@.len() >= 1,
    ensures pure_ok(old(vm), final(vm), r, JValue::Int(case_mapped(int_val(old(vm), args@[0]) as u32, false))),
{
    let c = int_of(vm, args[0]) as u32;
    Ok(JValue::Int(map_case(c, false)))
}

pub fn char_is_high_surrogate(vm: &mut Vm, args: &[JValue]) -> (r: R)
    requires args@.len() >= 1,
    ensures pure_ok(old(vm), final(vm), r, JValue::Int(if 0xD800 <= int_val(old(vm), args@[0]) as u16 <= 0xDBFF { 1 } else { 0 })),
{
    let c = int_of(vm, args[0]) as u16;
    Ok(JValue::Int(if 0xD800 <= c && c <= 0xDBFF { 1 } else { 0 }))
}

pub fn char_is_low_surrogate(vm: &mut Vm, args: &[JValue]) -> (r: R)
    requires args@.len() >= 1,
    ensures pure_ok(old(vm), final(vm), r, JValue::Int(if 0xDC00 <= int_val(old(vm), args@[0]) as u16 <= 0xDFFF { 1 } else { 0 })),
{
    let c = int_of(vm, args[0]) as u16;
    Ok(JValue::Int(if 0xDC00 <= c && c <= 0xDFFF { 1 } else { 0 }))
}

pub fn char_get_numeric_value(vm: &mut Vm, args: &[JValue]) -> (r: R)
    requires args@.len() >= 1,
    ensures pure_ok(old(vm), final(vm), r, JValue::Int(if 0x30 <= int_val(old(vm), args@[0]) as u32 <= 0x39 {
        (int_val(old(vm), args@[0]) as u32 - 0x30) as i32 } else { -1i32 })),
{
    let c = int_of(vm, args[0]) as u32;
    Ok(JValue::Int(if 0x30 <= c && c <= 0x39 { c as i32 - 0x30 } else { -1 }))
}

} // verus!
