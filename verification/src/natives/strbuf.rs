//! `java.lang.StringBuilder` host shims.

use vstd::prelude::*;

use crate::natives::character::{char_of_code, is_scalar, unit_text};
use crate::natives::lang::str_arg;
use crate::natives::{bool_of, bool_val, int_of, int_val, jstr, long_of, long_val, nat_post, new_str, npe, set_payload, str_result, R};
use crate::error::NatErr;
use crate::object::Native;
use crate::text::signed_digits;
use crate::value::{push_char, to_owned_string, JValue};
use crate::vm::{payload_spec, Vm};

verus! {

/// The text of a `StringBuilder` value.
pub open spec fn sb_text(vm: &Vm, v: JValue) -> Option<Seq<char>> {
    match payload_spec(vm, v) {
        Some(Native::StringBuilder(s)) => Some(s@),
        _ => None,
    }
}

/// The builder `this` now holds `text`, every other object is unchanged.
pub open spec fn sb_updated(old_vm: &Vm, vm: &Vm, this: JValue, text: Seq<char>) -> bool {
    &&& this matches JValue::Obj(id)
    &&& sb_text(vm, this) == Some(text)
    &&& vm.arena.objects@.len() == old_vm.arena.objects@.len()
    &&& forall|j: int| 0 <= j < old_vm.arena.objects@.len() && j != id ==> vm.arena.objects@[j] == old_vm.arena.objects@[j]
}

/// The contents of a builder.
fn sb_get(vm: &Vm, v: JValue) -> (r: Option<String>)
    ensures
        r matches Some(s) ==> sb_text(vm, v) == Some(s@),
        r is None ==> sb_text(vm, v) is None,
{
    match vm.payload_of(v) {
        Some(Native::StringBuilder(s)) => Some(to_owned_string(s.as_str())),
        _ => None,
    }
}

/// Appends `text` to the builder `this` and returns the builder.
pub fn sb_push(vm: &mut Vm, this: JValue, text: &str) -> (r: R)
    requires
        old(vm).wf(),
    ensures
        nat_post(old(vm), final(vm)),
        sb_text(old(vm), this) matches Some(s) ==> r == Ok::<JValue, NatErr>(this) && sb_updated(old(vm), final(vm), this, s + text@),
        sb_text(old(vm), this) is None ==> r is Err,
{
    match sb_get(vm, this) {
        Some(mut s) => {
            s.append(text);
            let id = this.as_obj();
            set_payload(vm, id, Native::StringBuilder(s));
            Ok(this)
        },
        None => Err(npe(vm)),
    }
}

pub fn sb_init(vm: &mut Vm, args: &[JValue]) -> (r: R)
    requires
        old(vm).wf(),
        args@.len() >= 1,
    ensures
        nat_post(old(vm), final(vm)),
        sb_text(old(vm), args@[0]) is Some ==> r == Ok::<JValue, NatErr>(JValue::Null),
        sb_text(old(vm), args@[0]) is None ==> r is Err,
{
    let init = if args.len() > 1 {
        match args[1] {
            JValue::Obj(_) => match vm.str_of_jvalue(args[1]) {
                Some(s) => s,
                None => String::new(),
            },
            _ => String::new(),
        }
    } else {
        String::new()
    };
    match sb_get(vm, args[0]) {
        Some(_) => {
            let id = args[0].as_obj();
            set_payload(vm, id, Native::StringBuilder(init));
            Ok(JValue::Null)
        },
        None => Err(npe(vm)),
    }
}

pub fn sb_to_string(vm: &mut Vm, args: &[JValue]) -> (r: R)
    requires
        old(vm).wf(),
        args@.len() >= 1,
    ensures
        nat_post(old(vm), final(vm)),
        sb_text(old(vm), args@[0]) matches Some(s) ==> r matches Ok(v) && str_result(old(vm), final(vm), v, s),
        sb_text(old(vm), args@[0]) is None ==> r is Err,
{
    match sb_get(vm, args[0]) {
        Some(s) => Ok(new_str(vm, s.as_str())),
        None => Err(npe(vm)),
    }
}

pub fn sb_append_str(vm: &mut Vm, args: &[JValue]) -> (r: R)
    requires
        old(vm).wf(),
        args@.len() >= 2,
    ensures
        nat_post(old(vm), final(vm)),
        str_arg(old(vm), args@[1]) is Some && sb_text(old(vm), args@[0]) is Some ==> r == Ok::<JValue, NatErr>(args@[0])
            && sb_updated(old(vm), final(vm), args@[0], sb_text(old(vm), args@[0])->Some_0 + str_arg(old(vm), args@[1])->Some_0),
        str_arg(old(vm), args@[1]) is None || sb_text(old(vm), args@[0]) is None ==> r is Err,
{
    match jstr(vm, args[1]) {
        Ok(s) => sb_push(vm, args[0], s.as_str()),
        Err(e) => Err(e),
    }
}

pub fn sb_append_int(vm: &mut Vm, args: &[JValue]) -> (r: R)
    requires
        old(vm).wf(),
        args@.len() >= 2,
    ensures
        nat_post(old(vm), final(vm)),
        sb_text(old(vm), args@[0]) matches Some(s) ==> r == Ok::<JValue, NatErr>(args@[0])
            && sb_updated(old(vm), final(vm), args@[0], s + signed_digits(int_val(old(vm), args@[1]) as int, 10)),
        sb_text(old(vm), args@[0]) is None ==> r is Err,
{
    let t = crate::text::int_to_string(int_of(vm, args[1]), 10);
    sb_push(vm, args[0], t.as_str())
}

pub fn sb_append_long(vm: &mut Vm, args: &[JValue]) -> (r: R)
    requires
        old(vm).wf(),
        args@.len() >= 2,
    ensures
        nat_post(old(vm), final(vm)),
        sb_text(old(vm), args@[0]) matches Some(s) ==> r == Ok::<JValue, NatErr>(args@[0])
            && sb_updated(old(vm), final(vm), args@[0], s + signed_digits(long_val(old(vm), args@[1]) as int, 10)),
        sb_text(old(vm), args@[0]) is None ==> r is Err,
{
    let t = crate::text::long_to_string(long_of(vm, args[1]), 10);
    sb_push(vm, args[0], t.as_str())
}

pub fn sb_append_bool(vm: &mut Vm, args: &[JValue]) -> (r: R)
    requires
        old(vm).wf(),
        args@.len() >= 2,
    ensures
        nat_post(old(vm), final(vm)),
        sb_text(old(vm), args@[0]) matches Some(s) ==> r == Ok::<JValue, NatErr>(args@[0])
            && sb_updated(old(vm), final(vm), args@[0], s + if bool_val(old(vm), args@[1]) { "true"@ } else { "false"@ }),
        sb_text(old(vm), args@[0]) is None ==> r is Err,
{
    let b = bool_of(vm, args[1]);
    sb_push(vm, args[0], if b { "true" } else { "false" })
}

/// One character as a string.
fn char_string(c: char) -> (r: String)
    ensures
        r@ == seq![c],
{
    let mut s = String::new();
    push_char(&mut s, c);
    assert(s@ =~= seq![c]);
    s
}

/// The character for a scalar code, U+FFFD otherwise.
fn code_char(x: u32) -> (r: char)
    ensures
        r == (if is_scalar(x) { char_of_code(x)->Some_0 } else { '\u{FFFD}' }),
{
    if x < 0xD800 || (0xE000 <= x && x <= 0x10FFFF) {
        proof { assert(is_scalar(x)); }
        crate::natives::character::code_to_char(x)
    } else {
        '\u{FFFD}'
    }
}

pub fn sb_append_char(vm: &mut Vm, args: &[JValue]) -> (r: R)
    requires
        old(vm).wf(),
        args@.len() >= 2,
    ensures
        nat_post(old(vm), final(vm)),
        sb_text(old(vm), args@[0]) matches Some(s) ==> r == Ok::<JValue, NatErr>(args@[0])
            && sb_updated(old(vm), final(vm), args@[0], s + unit_text(int_val(old(vm), args@[1]) as u16)),
        sb_text(old(vm), args@[0]) is None ==> r is Err,
{
    let u = int_of(vm, args[1]) as u16;
    let t = char_string(code_char(u as u32));
    sb_push(vm, args[0], t.as_str())
}

pub fn sb_append_code_point(vm: &mut Vm, args: &[JValue]) -> (r: R)
    requires
        old(vm).wf(),
        args@.len() >= 2,
    ensures
        nat_post(old(vm), final(vm)),
        sb_text(old(vm), args@[0]) matches Some(s) ==> r == Ok::<JValue, NatErr>(args@[0])
            && sb_updated(old(vm), final(vm), args@[0], s.push(if is_scalar(int_val(old(vm), args@[1]) as u32) {
                char_of_code(int_val(old(vm), args@[1]) as u32)->Some_0 } else { '\u{FFFD}' })),
        sb_text(old(vm), args@[0]) is None ==> r is Err,
{
    let cp = int_of(vm, args[1]) as u32;
    let c = code_char(cp);
    let t = char_string(c);
    let r = sb_push(vm, args[0], t.as_str());
    proof {
        if let Some(s) = sb_text(old(vm), args@[0]) {
            assert(s + seq![c] =~= s.push(c));
        }
    }
    r
}

/// Number of UTF-16 code units of `s`.
pub open spec fn utf16_len(s: Seq<char>) -> nat
    decreases s.len(),
{
    if s.len() == 0 { 0 } else { utf16_len(s.drop_last()) + if (s.last() as u32) >= 0x10000 { 2nat } else { 1nat } }
}

proof fn lemma_utf16_len_prefix(s: Seq<char>, i: int, j: int)
    requires
        0 <= i <= j <= s.len(),
    ensures
        utf16_len(s.subrange(0, i)) <= utf16_len(s.subrange(0, j)),
    decreases j - i,
{
    if i < j {
        lemma_utf16_len_prefix(s, i, j - 1);
        assert(s.subrange(0, j).drop_last() =~= s.subrange(0, j - 1));
    }
}

/// UTF-16 length of a string (its value when it fits in an `int`).
fn utf16_length(s: &str) -> (r: i32)
    ensures
        utf16_len(s@) <= i32::MAX ==> r as nat == utf16_len(s@),
{
    let n = s.unicode_len();
    let mut acc: u64 = 0;
    let mut i: usize = 0;
    while i < n
        invariant
            n == s@.len(),
            i <= n,
            acc <= i32::MAX,
            acc as nat == utf16_len(s@.subrange(0, i as int)),
        decreases n - i,
    {
        let c = s.get_char(i);
        assert(s@.subrange(0, i + 1).drop_last() =~= s@.subrange(0, i as int));
        let next = acc + if (c as u32) >= 0x10000 { 2 } else { 1 };
        if next > i32::MAX as u64 {
            proof {
                lemma_utf16_len_prefix(s@, i + 1, n as int);
                assert(s@.subrange(0, n as int) =~= s@);
            }
            return i32::MAX;
        }
        acc = next;
        i += 1;
    }
    assert(s@.subrange(0, n as int) =~= s@);
    acc as i32
}

pub fn sb_length(vm: &mut Vm, args: &[JValue]) -> (r: R)
    requires
        old(vm).wf(),
        args@.len() >= 1,
    ensures
        nat_post(old(vm), final(vm)),
        sb_text(old(vm), args@[0]) matches Some(s) ==> *final(vm) == *old(vm) && (r matches Ok(JValue::Int(n))
            && (utf16_len(s) <= i32::MAX ==> n as nat == utf16_len(s))),
        sb_text(old(vm), args@[0]) is None ==> r is Err,
{
    match sb_get(vm, args[0]) {
        Some(s) => Ok(JValue::Int(utf16_length(s.as_str()))),
        None => Err(npe(vm)),
    }
}

pub fn sb_capacity(vm: &mut Vm, args: &[JValue]) -> (r: R)
    ensures
        *final(vm) == *old(vm),
        r == Ok::<JValue, NatErr>(JValue::Int(0)),
{
    Ok(JValue::Int(0))
}

} // verus!
