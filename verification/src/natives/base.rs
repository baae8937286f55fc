//! `java.lang.Object`, `Enum`, `Throwable`, `Number`, `System` and
//! `ref.SoftReference` host shims.

use vstd::prelude::*;

use crate::error::{JvmError, NatErr};
use crate::natives::crypto::{only_changed, text_of};
use crate::natives::{fresh_obj, int_of, int_val, jstr, long_of, long_val, nat_post, new_object, new_str, npe, payload, set_payload, str_result, R};
use crate::object::{ArrayData, Native};
use crate::text::unsigned_digits;
use crate::uri::{before, sub_text};
use crate::value::{concat, dotted_spec, push_char, to_owned_string, JValue};
use crate::vm::{payload_spec, Vm};

verus! {

/// The native returned `v` and left the VM as it was.
pub open spec fn kept(old_vm: &Vm, vm: &Vm, r: R, v: JValue) -> bool {
    *vm == *old_vm && r == Ok::<JValue, NatErr>(v)
}

/// `Object.<init>()`: nothing to set up.
pub fn object_init(vm: &mut Vm, args: &[JValue]) -> (r: R)
    ensures
        kept(old(vm), final(vm), r, JValue::Null),
{
    Ok(JValue::Null)
}

/// The identity hash of a value: its object id, 0 for anything else.
pub open spec fn identity_hash(v: JValue) -> i32 {
    match v {
        JValue::Obj(id) => id as i32,
        _ => 0,
    }
}

/// `Object.hashCode()`: the object id.
pub fn object_hash_code(vm: &mut Vm, args: &[JValue]) -> (r: R)
    requires
        args@.len() >= 1,
    ensures
        kept(old(vm), final(vm), r, JValue::Int(identity_hash(args@[0]))),
{
    match args[0] {
        JValue::Obj(id) => Ok(JValue::Int(#[verifier::truncate] (id as i32))),
        _ => Ok(JValue::Int(0)),
    }
}

/// `System.identityHashCode(Object)`: the object id, 0 for null.
pub fn sys_identity_hash_code(vm: &mut Vm, args: &[JValue]) -> (r: R)
    requires
        args@.len() >= 1,
    ensures
        kept(old(vm), final(vm), r, JValue::Int(identity_hash(args@[0]))),
{
    object_hash_code(vm, args)
}

/// `Object.equals(Object)`: identity (two nulls are equal).
pub fn object_equals(vm: &mut Vm, args: &[JValue]) -> (r: R)
    requires
        args@.len() >= 2,
    ensures
        kept(old(vm), final(vm), r, JValue::Int(
            if (args@[0] is Obj && args@[1] is Obj && args@[0] == args@[1]) || (args@[0] is Null && args@[1] is Null) { 1i32 } else { 0i32 })),
{
    let eq = match (args[0], args[1]) {
        (JValue::Obj(x), JValue::Obj(y)) => x == y,
        (JValue::Null, JValue::Null) => true,
        _ => false,
    };
    Ok(JValue::Int(if eq { 1 } else { 0 }))
}

/// The class id of the object `v` refers to.
pub open spec fn class_of_val(vm: &Vm, v: JValue) -> Option<u32> {
    match v {
        JValue::Obj(id) => if (id as int) < vm.arena.objects@.len() { Some(vm.arena.objects@[id as int].class) } else { None },
        _ => None,
    }
}

/// The descriptor of class `c`.
pub open spec fn desc_of(vm: &Vm, c: u32) -> Seq<char> {
    vm.intern@[vm.classes@[c as int].descriptor as int]@
}

/// The class of object `v`; anything else throws `NullPointerException`.
fn obj_class(vm: &mut Vm, v: JValue) -> (r: Result<u32, NatErr>)
    requires
        old(vm).wf(),
    ensures
        nat_post(old(vm), final(vm)),
        r matches Ok(c) ==> class_of_val(old(vm), v) == Some(c) && *final(vm) == *old(vm) && (c as int) < old(vm).classes@.len(),
        r is Err ==> class_of_val(old(vm), v) is None && r->Err_0 is Throw,
{
    match v {
        JValue::Obj(id) => {
            if (id as usize) < vm.arena.objects.len() {
                let c = vm.arena.objects[id as usize].class;
                return Ok(c);
            }
        },
        _ => {},
    }
    Err(npe(vm))
}

/// `Object.toString()`: the dotted class name, `@`, and the object id in
/// lower-case hex.
pub fn object_to_string(vm: &mut Vm, args: &[JValue]) -> (r: R)
    requires
        old(vm).wf(),
        args@.len() >= 1,
    ensures
        nat_post(old(vm), final(vm)),
        r is Ok <==> class_of_val(old(vm), args@[0]) is Some,
        r matches Ok(v) ==> str_result(old(vm), final(vm), v,
            dotted_spec(desc_of(old(vm), class_of_val(old(vm), args@[0])->Some_0)) + seq!['@']
                + unsigned_digits(args@[0]->Obj_0 as nat, 16)),
        r is Err ==> r->Err_0 is Throw,
{
    let c = obj_class(vm, args[0])?;
    let id = args[0].as_obj();
    let name = vm.class_desc_str(c);
    let mut s = name;
    push_char(&mut s, '@');
    let hex = crate::text::fmt_unsigned(id as u64, 16);
    let t = concat(s.as_str(), hex.as_str());
    proof {
        assert(t@ =~= dotted_spec(desc_of(old(vm), c)) + seq!['@'] + unsigned_digits(id as nat, 16));
    }
    Ok(new_str(vm, t.as_str()))
}

/// An element-by-element copy of a vector.
fn copy_vec<T: Copy>(v: &Vec<T>) -> (r: Vec<T>)
    ensures
        r@ == v@,
{
    let mut out: Vec<T> = Vec::new();
    let mut i: usize = 0;
    while i < v.len()
        invariant
            i <= v@.len(),
            out@ == v@.take(i as int),
        decreases v@.len() - i,
    {
        out.push(v[i]);
        proof {
            assert(v@.take(i + 1) =~= v@.take(i as int).push(v@[i as int]));
        }
        i += 1;
    }
    proof {
        assert(v@.take(v@.len() as int) =~= v@);
    }
    out
}

/// Two arrays of the same kind holding the same elements.
pub open spec fn same_array(a: ArrayData, b: ArrayData) -> bool {
    &&& crate::object::same_kind(a, b)
    &&& crate::object::array_len(a) == crate::object::array_len(b)
    &&& forall|i: int| 0 <= i < crate::object::array_len(a) ==> #[trigger] crate::object::array_elem(a, i) == crate::object::array_elem(b, i)
}

/// A copy of an array's storage.
fn copy_array(d: &ArrayData) -> (r: ArrayData)
    ensures
        same_array(r, *d),
{
    match d {
        ArrayData::Byte(v) => ArrayData::Byte(copy_vec(v)),
        ArrayData::Char(v) => ArrayData::Char(copy_vec(v)),
        ArrayData::Short(v) => ArrayData::Short(copy_vec(v)),
        ArrayData::Int(v) => ArrayData::Int(copy_vec(v)),
        ArrayData::Long(v) => ArrayData::Long(copy_vec(v)),
        ArrayData::Float(v) => ArrayData::Float(copy_vec(v)),
        ArrayData::Double(v) => ArrayData::Double(copy_vec(v)),
        ArrayData::Bool(v) => ArrayData::Bool(copy_vec(v)),
        ArrayData::Obj(v) => ArrayData::Obj(copy_vec(v)),
    }
}

/// `Object.clone()`: a copy of an array (of the same class); any other
/// object throws `UnsupportedOperationException`, a non-object
/// `NullPointerException`.
pub fn object_clone(vm: &mut Vm, args: &[JValue]) -> (r: R)
    requires
        old(vm).wf(),
        args@.len() >= 1,
    ensures
        nat_post(old(vm), final(vm)),
        r matches Ok(v) ==> payload_spec(old(vm), args@[0]) matches Some(Native::Array(d))
            && (payload_spec(final(vm), v) matches Some(Native::Array(e)) && same_array(e, d))
            && class_of_val(final(vm), v) == class_of_val(old(vm), args@[0]),
        (payload_spec(old(vm), args@[0]) matches Some(n) && !(n is Array)) ==> r matches Err(NatErr::Throw(_)),
        payload_spec(old(vm), args@[0]) is None ==> r matches Err(NatErr::Throw(_)),
{
    let c = obj_class(vm, args[0])?;
    let data = match payload(vm, args[0]) {
        Some(Native::Array(d)) => copy_array(d),
        Some(_) => return Err(NatErr::Throw(vm.err_uoe("clone not supported"))),
        None => return Err(npe(vm)),
    };
    match vm.alloc_obj(c, Vec::new(), Some(Native::Array(data))) {
        Some(id) => Ok(JValue::Obj(id)),
        None => Err(NatErr::Fatal(JvmError::Fatal(String::from_str("heap exhausted")))),
    }
}

/// Name and ordinal of an `Enum` value.
pub open spec fn enum_of(vm: &Vm, v: JValue) -> Option<(Seq<char>, i32)> {
    match payload_spec(vm, v) {
        Some(Native::Enum { name, ordinal }) => Some((name@, ordinal)),
        _ => None,
    }
}

/// `Enum.<init>(String, int)`: sets the constant's name and ordinal.
pub fn enum_init(vm: &mut Vm, args: &[JValue]) -> (r: R)
    requires
        old(vm).wf(),
        args@.len() >= 3,
    ensures
        nat_post(old(vm), final(vm)),
        r is Ok <==> text_of(old(vm), args@[1]) is Some && enum_of(old(vm), args@[0]) is Some,
        r is Ok ==> r == Ok::<JValue, NatErr>(JValue::Null) && only_changed(old(vm), final(vm), args@[0])
            && enum_of(final(vm), args@[0]) == Some((text_of(old(vm), args@[1])->Some_0, int_val(old(vm), args@[2]))),
        r is Err ==> r->Err_0 is Throw,
{
    let name = jstr(vm, args[1])?;
    let ordinal = int_of(vm, args[2]);
    let is_enum = match payload(vm, args[0]) {
        Some(Native::Enum { .. }) => true,
        _ => false,
    };
    if !is_enum {
        return Err(npe(vm));
    }
    let id = args[0].as_obj();
    set_payload(vm, id, Native::Enum { name, ordinal });
    Ok(JValue::Null)
}

/// `Enum.name()` / `Enum.toString()`: the constant's name.
pub fn enum_name(vm: &mut Vm, args: &[JValue]) -> (r: R)
    requires
        old(vm).wf(),
        args@.len() >= 1,
    ensures
        nat_post(old(vm), final(vm)),
        r is Ok <==> enum_of(old(vm), args@[0]) is Some,
        r matches Ok(v) ==> str_result(old(vm), final(vm), v, enum_of(old(vm), args@[0])->Some_0.0),
        r is Err ==> r->Err_0 is Throw,
{
    let name = match payload(vm, args[0]) {
        Some(Native::Enum { name, .. }) => to_owned_string(name.as_str()),
        _ => return Err(npe(vm)),
    };
    Ok(new_str(vm, name.as_str()))
}

/// `Enum.toString()`: as [`enum_name`].
pub fn enum_to_string(vm: &mut Vm, args: &[JValue]) -> (r: R)
    requires
        old(vm).wf(),
        args@.len() >= 1,
    ensures
        nat_post(old(vm), final(vm)),
        r is Ok <==> enum_of(old(vm), args@[0]) is Some,
        r matches Ok(v) ==> str_result(old(vm), final(vm), v, enum_of(old(vm), args@[0])->Some_0.0),
        r is Err ==> r->Err_0 is Throw,
{
    enum_name(vm, args)
}

/// `Enum.ordinal()`.
pub fn enum_ordinal(vm: &mut Vm, args: &[JValue]) -> (r: R)
    requires
        old(vm).wf(),
        args@.len() >= 1,
    ensures
        nat_post(old(vm), final(vm)),
        r is Ok <==> enum_of(old(vm), args@[0]) is Some,
        r is Ok ==> kept(old(vm), final(vm), r, JValue::Int(enum_of(old(vm), args@[0])->Some_0.1)),
        r is Err ==> r->Err_0 is Throw,
{
    match payload(vm, args[0]) {
        Some(Native::Enum { ordinal, .. }) => Ok(JValue::Int(*ordinal)),
        _ => Err(npe(vm)),
    }
}

/// `Enum.compareTo(E)`: -1, 0 or 1 as the ordinals compare.
pub fn enum_compare_to(vm: &mut Vm, args: &[JValue]) -> (r: R)
    requires
        old(vm).wf(),
        args@.len() >= 2,
    ensures
        nat_post(old(vm), final(vm)),
        r is Ok <==> enum_of(old(vm), args@[0]) is Some && enum_of(old(vm), args@[1]) is Some,
        r is Ok ==> kept(old(vm), final(vm), r, JValue::Int(crate::natives::three_way(
            enum_of(old(vm), args@[0])->Some_0.1 as int, enum_of(old(vm), args@[1])->Some_0.1 as int))),
        r is Err ==> r->Err_0 is Throw,
{
    let a = match payload(vm, args[0]) {
        Some(Native::Enum { ordinal, .. }) => *ordinal,
        _ => return Err(npe(vm)),
    };
    let b = match payload(vm, args[1]) {
        Some(Native::Enum { ordinal, .. }) => *ordinal,
        _ => return Err(npe(vm)),
    };
    Ok(JValue::Int(crate::natives::three_way_i64(a as i64, b as i64)))
}

/// The message of a `Throwable` value (`None` for no message or no
/// throwable).
pub open spec fn message_of(vm: &Vm, v: JValue) -> Option<Seq<char>> {
    match payload_spec(vm, v) {
        Some(Native::Throwable { message: Some(m), cause: _ }) => Some(m@),
        _ => None,
    }
}

fn message_text(vm: &Vm, v: JValue) -> (r: Option<String>)
    ensures
        r matches Some(s) ==> message_of(vm, v) == Some(s@),
        r is None ==> message_of(vm, v) is None,
{
    match payload(vm, v) {
        Some(Native::Throwable { message: Some(m), .. }) => Some(to_owned_string(m.as_str())),
        _ => None,
    }
}

/// `Throwable.getMessage()` / `getLocalizedMessage()`: the message, or
/// null.
pub fn throwable_get_message(vm: &mut Vm, args: &[JValue]) -> (r: R)
    requires
        old(vm).wf(),
        args@.len() >= 1,
    ensures
        nat_post(old(vm), final(vm)),
        r matches Ok(v) && match message_of(old(vm), args@[0]) {
            Some(m) => str_result(old(vm), final(vm), v, m),
            None => v == JValue::Null && *final(vm) == *old(vm),
        },
{
    match message_text(vm, args[0]) {
        Some(m) => Ok(new_str(vm, m.as_str())),
        None => Ok(JValue::Null),
    }
}

/// `Throwable.getLocalizedMessage()`: as [`throwable_get_message`].
pub fn throwable_get_localized_message(vm: &mut Vm, args: &[JValue]) -> (r: R)
    requires
        old(vm).wf(),
        args@.len() >= 1,
    ensures
        nat_post(old(vm), final(vm)),
        r matches Ok(v) && match message_of(old(vm), args@[0]) {
            Some(m) => str_result(old(vm), final(vm), v, m),
            None => v == JValue::Null && *final(vm) == *old(vm),
        },
{
    throwable_get_message(vm, args)
}

/// The cause of a `Throwable` value (null for anything else).
pub open spec fn cause_of(vm: &Vm, v: JValue) -> JValue {
    match payload_spec(vm, v) {
        Some(Native::Throwable { message: _, cause }) => cause,
        _ => JValue::Null,
    }
}

/// `Throwable.getCause()`.
pub fn throwable_get_cause(vm: &mut Vm, args: &[JValue]) -> (r: R)
    requires
        args@.len() >= 1,
    ensures
        kept(old(vm), final(vm), r, cause_of(old(vm), args@[0])),
{
    match payload(vm, args[0]) {
        Some(Native::Throwable { cause, .. }) => Ok(*cause),
        _ => Ok(JValue::Null),
    }
}

/// `Throwable.initCause(Throwable)`: sets the cause and returns the
/// throwable; a non-throwable receiver throws `NullPointerException`.
pub fn throwable_init_cause(vm: &mut Vm, args: &[JValue]) -> (r: R)
    requires
        old(vm).wf(),
        args@.len() >= 2,
    ensures
        nat_post(old(vm), final(vm)),
        r is Ok <==> payload_spec(old(vm), args@[0]) matches Some(Native::Throwable { .. }),
        r is Ok ==> r == Ok::<JValue, NatErr>(args@[0]) && only_changed(old(vm), final(vm), args@[0])
            && message_of(final(vm), args@[0]) == message_of(old(vm), args@[0])
            && cause_of(final(vm), args@[0]) == args@[1],
        r is Err ==> r->Err_0 is Throw,
{
    let message = match payload(vm, args[0]) {
        Some(Native::Throwable { message, .. }) => match message {
            Some(m) => Some(to_owned_string(m.as_str())),
            None => None,
        },
        _ => return Err(npe(vm)),
    };
    let id = args[0].as_obj();
    set_payload(vm, id, Native::Throwable { message, cause: args[1] });
    Ok(args[0])
}

/// `Throwable.fillInStackTrace()`: the throwable itself.
pub fn throwable_fill_in_stack_trace(vm: &mut Vm, args: &[JValue]) -> (r: R)
    requires
        args@.len() >= 1,
    ensures
        kept(old(vm), final(vm), r, args@[0]),
{
    Ok(args[0])
}

/// A new empty array of element class `desc`.
fn empty_array(vm: &mut Vm, desc: &str) -> (r: R)
    requires
        old(vm).wf(),
    ensures
        nat_post(old(vm), final(vm)),
        r matches Ok(v) ==> payload_spec(final(vm), v) matches Some(Native::Array(ArrayData::Obj(e))) && e@.len() == 0,
        r matches Err(e) ==> e is Fatal,
{
    let e: Vec<JValue> = Vec::new();
    new_object(vm, desc, Native::Array(ArrayData::Obj(e)))
}

/// `Throwable.getSuppressed()`: none are kept; an empty array.
pub fn throwable_get_suppressed(vm: &mut Vm, args: &[JValue]) -> (r: R)
    requires
        old(vm).wf(),
    ensures
        nat_post(old(vm), final(vm)),
        r matches Ok(v) ==> payload_spec(final(vm), v) matches Some(Native::Array(ArrayData::Obj(e))) && e@.len() == 0,
        r matches Err(e) ==> e is Fatal,
{
    empty_array(vm, "[Ljava/lang/Throwable;")
}

/// `Throwable.getStackTrace()`: no frames are recorded; an empty array.
pub fn throwable_get_stack_trace(vm: &mut Vm, args: &[JValue]) -> (r: R)
    requires
        old(vm).wf(),
    ensures
        nat_post(old(vm), final(vm)),
        r matches Ok(v) ==> payload_spec(final(vm), v) matches Some(Native::Array(ArrayData::Obj(e))) && e@.len() == 0,
        r matches Err(e) ==> e is Fatal,
{
    empty_array(vm, "[Ljava/lang/StackTraceElement;")
}

/// `System.exit(int)`: ends the run with that status.
pub fn sys_exit(vm: &mut Vm, args: &[JValue]) -> (r: R)
    requires
        args@.len() >= 1,
    ensures
        *final(vm) == *old(vm),
        r == Err::<JValue, NatErr>(NatErr::Fatal(JvmError::Exit(int_val(old(vm), args@[0])))),
{
    Err(NatErr::Fatal(JvmError::Exit(int_of(vm, args[0]))))
}

/// `System.getProperty(String)`: no properties are set; null.
pub fn sys_get_property(vm: &mut Vm, args: &[JValue]) -> (r: R)
    ensures
        kept(old(vm), final(vm), r, JValue::Null),
{
    Ok(JValue::Null)
}

/// `System.lineSeparator()`: `"\n"`.
pub fn sys_line_separator(vm: &mut Vm, args: &[JValue]) -> (r: R)
    requires
        old(vm).wf(),
    ensures
        nat_post(old(vm), final(vm)),
        r matches Ok(v) && str_result(old(vm), final(vm), v, seq!['\n']),
{
    proof {
        reveal_strlit("\n");
    }
    let r = new_str(vm, "\n");
    proof {
        assert("\n"@ =~= seq!['\n']);
    }
    Ok(r)
}

/// `Number.intValue()`: the `int` a value stands for.
pub fn number_int_value(vm: &mut Vm, args: &[JValue]) -> (r: R)
    requires
        args@.len() >= 1,
    ensures
        kept(old(vm), final(vm), r, JValue::Int(int_val(old(vm), args@[0]))),
{
    Ok(JValue::Int(int_of(vm, args[0])))
}

/// `Number.longValue()`: the `long` a value stands for.
pub fn number_long_value(vm: &mut Vm, args: &[JValue]) -> (r: R)
    requires
        args@.len() >= 1,
    ensures
        kept(old(vm), final(vm), r, JValue::Long(long_val(old(vm), args@[0]))),
{
    Ok(JValue::Long(long_of(vm, args[0])))
}

/// `Number.byteValue()`: the `int` value narrowed to a byte.
pub fn number_byte_value(vm: &mut Vm, args: &[JValue]) -> (r: R)
    requires
        args@.len() >= 1,
    ensures
        kept(old(vm), final(vm), r, JValue::Int(int_val(old(vm), args@[0]) as i8 as i32)),
{
    let i = int_of(vm, args[0]);
    Ok(JValue::Int(#[verifier::truncate] (i as i8) as i32))
}

/// `Number.shortValue()`: the `int` value narrowed to a short.
pub fn number_short_value(vm: &mut Vm, args: &[JValue]) -> (r: R)
    requires
        args@.len() >= 1,
    ensures
        kept(old(vm), final(vm), r, JValue::Int(int_val(old(vm), args@[0]) as i16 as i32)),
{
    let i = int_of(vm, args[0]);
    Ok(JValue::Int(#[verifier::truncate] (i as i16) as i32))
}

/// `SoftReference.<init>(Object)`: holds the referent.
pub fn soft_reference_init(vm: &mut Vm, args: &[JValue]) -> (r: R)
    requires
        old(vm).wf(),
        args@.len() >= 2,
    ensures
        nat_post(old(vm), final(vm)),
        r is Ok <==> class_of_val(old(vm), args@[0]) is Some,
        r is Ok ==> r == Ok::<JValue, NatErr>(JValue::Null) && only_changed(old(vm), final(vm), args@[0])
            && payload_spec(final(vm), args@[0]) == Some(Native::Lazy(args@[1])),
        r is Err ==> r->Err_0 is Throw,
{
    obj_class(vm, args[0])?;
    let id = args[0].as_obj();
    set_payload(vm, id, Native::Lazy(args[1]));
    Ok(JValue::Null)
}

/// `SoftReference.get()`: the referent (never cleared here).
pub fn soft_reference_get(vm: &mut Vm, args: &[JValue]) -> (r: R)
    requires
        old(vm).wf(),
        args@.len() >= 1,
    ensures
        nat_post(old(vm), final(vm)),
        r is Ok <==> payload_spec(old(vm), args@[0]) matches Some(Native::Lazy(_)),
        r is Ok ==> kept(old(vm), final(vm), r, payload_spec(old(vm), args@[0])->Some_0->Lazy_0),
        r is Err ==> r->Err_0 is Throw,
{
    match payload(vm, args[0]) {
        Some(Native::Lazy(v)) => Ok(*v),
        _ => Err(npe(vm)),
    }
}

} // verus!
