//! Host implementations of Java library methods ("natives") and the helpers
//! they share.

use vstd::prelude::*;

use crate::error::{JvmError, NatErr};
use crate::object::{Native, Object};
use crate::value::{to_owned_string, JValue};
use crate::vm::{heap_post, is_throwable, loaded_desc, payload_spec, room_spec, NativeEntry, Vm};

pub mod character;
pub mod android;
pub mod base;
pub mod crypto;
pub mod encoding;
pub mod file;
pub mod injekt;
pub mod lang;
pub mod strbuf;
pub mod thread;
pub mod stream;

verus! {

/// How a native method is implemented: by one of the VM's built-in host
/// shims, by a host-registered function (identified by its index in the
/// embedder's table), or by a built-in whose host input/output the embedder
/// performs.
#[derive(Debug, Clone, Copy, PartialEq, Eq, Structural)]
pub enum NativeFn {
    Builtin(u32),
    Host(u32),
    /// A built-in whose work is host input/output, done by the embedder.
    Io(u32),
}

/// Result of a native call.
pub type R = Result<JValue, NatErr>;

/// The VM after a native: well formed, tables grown, the environment kept.
pub open spec fn nat_post(old_vm: &Vm, new_vm: &Vm) -> bool {
    heap_post(old_vm, new_vm)
}

/// The native failed with a freshly thrown exception of class `desc`.
pub open spec fn throws(vm: &Vm, r: R, desc: Seq<char>) -> bool {
    r matches Err(NatErr::Throw(t)) && is_throwable(vm, t, desc, vm.arena.objects@[t as int].native->Some_0->Throwable_message->Some_0@)
}

/// The `int` a value stands for: an `Int`, or the value in an `Integer`,
/// `Short`, `Byte` or `Character` box; 0 otherwise.
pub open spec fn int_val(vm: &Vm, v: JValue) -> i32 {
    match v {
        JValue::Int(i) => i,
        JValue::Obj(_) => match payload_spec(vm, v) {
            Some(Native::IntBox(i)) => i,
            Some(Native::ShortBox(s)) => s as i32,
            Some(Native::ByteBox(b)) => b as i32,
            Some(Native::CharBox(c)) => c as i32,
            _ => 0,
        },
        _ => 0,
    }
}

/// The `long` a value stands for: a `Long` or `Int`, or the value in a
/// `Long` or int-like box; 0 otherwise.
pub open spec fn long_val(vm: &Vm, v: JValue) -> i64 {
    match v {
        JValue::Long(l) => l,
        JValue::Int(i) => i as i64,
        JValue::Obj(_) => match payload_spec(vm, v) {
            Some(Native::LongBox(l)) => l,
            Some(Native::IntBox(i)) => i as i64,
            Some(Native::ShortBox(s)) => s as i64,
            Some(Native::ByteBox(b)) => b as i64,
            Some(Native::CharBox(c)) => c as i64,
            _ => 0,
        },
        _ => 0,
    }
}

/// The `boolean` a value stands for: a non-zero `Int` or a `true` box.
pub open spec fn bool_val(vm: &Vm, v: JValue) -> bool {
    match payload_spec(vm, v) {
        Some(Native::BoolBox(b)) => b,
        _ => int_val(vm, v) != 0,
    }
}

/// The payload of a value's object.
pub fn payload(vm: &Vm, v: JValue) -> (r: Option<&Native>)
    ensures
        r matches Some(n) ==> payload_spec(vm, v) == Some(*n),
        r is None ==> payload_spec(vm, v) is None,
{
    vm.payload_of(v)
}

/// The `int` a value stands for.
pub fn int_of(vm: &Vm, v: JValue) -> (r: i32)
    ensures
        r == int_val(vm, v),
{
    match v {
        JValue::Int(i) => i,
        JValue::Obj(_) => match payload(vm, v) {
            Some(Native::IntBox(i)) => *i,
            Some(Native::ShortBox(s)) => *s as i32,
            Some(Native::ByteBox(b)) => *b as i32,
            Some(Native::CharBox(c)) => *c as i32,
            _ => 0,
        },
        _ => 0,
    }
}

/// The `long` a value stands for.
pub fn long_of(vm: &Vm, v: JValue) -> (r: i64)
    ensures
        r == long_val(vm, v),
{
    match v {
        JValue::Long(l) => l,
        JValue::Int(i) => i as i64,
        JValue::Obj(_) => match payload(vm, v) {
            Some(Native::LongBox(l)) => *l,
            Some(Native::IntBox(i)) => *i as i64,
            Some(Native::ShortBox(s)) => *s as i64,
            Some(Native::ByteBox(b)) => *b as i64,
            Some(Native::CharBox(c)) => *c as i64,
            _ => 0,
        },
        _ => 0,
    }
}

/// The `boolean` a value stands for.
pub fn bool_of(vm: &Vm, v: JValue) -> (r: bool)
    ensures
        r == bool_val(vm, v),
{
    match payload(vm, v) {
        Some(Native::BoolBox(b)) => *b,
        _ => int_of(vm, v) != 0,
    }
}

/// A thrown `NullPointerException`.
pub fn npe(vm: &mut Vm) -> (r: NatErr)
    requires
        old(vm).wf(),
    ensures
        nat_post(old(vm), final(vm)),
        r is Throw,
        old(vm).arena.objects@.len() < 0x7fff_ffff ==> throws(final(vm), Err(r), "Ljava/lang/NullPointerException;"@),
{
    NatErr::Throw(vm.err_npe())
}

/// A thrown `IllegalArgumentException` with message `msg`.
pub fn iae(vm: &mut Vm, msg: &str) -> (r: NatErr)
    requires
        old(vm).wf(),
    ensures
        nat_post(old(vm), final(vm)),
        r is Throw,
        old(vm).arena.objects@.len() < 0x7fff_ffff ==> throws(final(vm), Err(r), "Ljava/lang/IllegalArgumentException;"@),
{
    NatErr::Throw(vm.err_iae(msg))
}

/// A thrown `IndexOutOfBoundsException` for index `i`.
pub fn ioobe(vm: &mut Vm, i: i32) -> (r: NatErr)
    requires
        old(vm).wf(),
    ensures
        nat_post(old(vm), final(vm)),
        r is Throw,
        old(vm).arena.objects@.len() < 0x7fff_ffff ==> throws(final(vm), Err(r), "Ljava/lang/IndexOutOfBoundsException;"@),
{
    NatErr::Throw(vm.err_ioobe(i))
}

/// A VM error as a native failure.
pub fn nat_fatal(e: JvmError) -> (r: NatErr)
    ensures
        r == NatErr::Fatal(e),
{
    NatErr::Fatal(e)
}

/// The object `v` refers to holds payload `n` of class named `desc`.
pub open spec fn fresh_obj(old_vm: &Vm, vm: &Vm, v: JValue, desc: Seq<char>, n: Native) -> bool {
    &&& v matches JValue::Obj(id)
    &&& (id as int) < vm.arena.objects@.len()
    &&& vm.arena.objects@[id as int].native == Some(n)
    &&& vm.intern@[vm.classes@[vm.arena.objects@[id as int].class as int].descriptor as int]@ == desc
    &&& forall|j: int| 0 <= j < old_vm.arena.objects@.len() && j != id ==> vm.arena.objects@[j] == old_vm.arena.objects@[j]
}

/// Allocates an instance of the class named `desc` holding payload `native`.
pub fn new_object(vm: &mut Vm, desc: &str, native: Native) -> (r: R)
    requires
        old(vm).wf(),
    ensures
        nat_post(old(vm), final(vm)),
        final(vm).injekt_type_by_subclass == old(vm).injekt_type_by_subclass,
        r matches Ok(v) ==> fresh_obj(old(vm), final(vm), v, desc@, native),
        r matches Err(e) ==> e is Fatal,
        room_spec(old(vm)) && loaded_desc(old(vm), desc@) ==> r is Ok,
{
    let class = match vm.ensure_class_by_desc(desc) {
        Ok(c) => c,
        Err(e) => return Err(NatErr::Fatal(e)),
    };
    match vm.alloc_obj(class, Vec::new(), Some(native)) {
        Some(id) => Ok(JValue::Obj(id)),
        None => Err(NatErr::Fatal(JvmError::Fatal(String::from_str("heap exhausted")))),
    }
}

/// A boxed primitive of class `desc`.
pub fn boxed(vm: &mut Vm, desc: &str, native: Native) -> (r: R)
    requires
        old(vm).wf(),
    ensures
        nat_post(old(vm), final(vm)),
        r matches Ok(v) ==> fresh_obj(old(vm), final(vm), v, desc@, native),
        r matches Err(e) ==> e is Fatal,
{
    new_object(vm, desc, native)
}

/// `v` is a string object holding `s`, or `Null` when the heap was full.
pub open spec fn str_result(old_vm: &Vm, vm: &Vm, v: JValue, s: Seq<char>) -> bool {
    ||| (v matches JValue::Obj(id) && (id as int) < vm.arena.objects@.len()
        && (vm.arena.objects@[id as int].native matches Some(Native::Str(t)) && t@ == s))
    ||| (v == JValue::Null && old_vm.arena.objects@.len() >= 0x7fff_ffff)
}

/// A new `java.lang.String` object holding `s` (`Null` when the heap is full).
pub fn new_str(vm: &mut Vm, s: &str) -> (r: JValue)
    requires
        old(vm).wf(),
    ensures
        nat_post(old(vm), final(vm)),
        str_result(old(vm), final(vm), r, s@),
{
    let c = vm.hot.string;
    vm.alloc_payload(c, Native::Str(to_owned_string(s)))
}

/// A thrown `NumberFormatException` with message `msg`.
pub fn nfe(vm: &mut Vm, msg: &str) -> (r: NatErr)
    requires
        old(vm).wf(),
    ensures
        nat_post(old(vm), final(vm)),
        r is Throw,
        old(vm).arena.objects@.len() < 0x7fff_ffff ==> throws(final(vm), Err(r), "Ljava/lang/NumberFormatException;"@),
{
    NatErr::Throw(vm.err_nfe(msg))
}

/// The `-1`/`0`/`1` result of comparing `a` with `b`.
pub open spec fn three_way(a: int, b: int) -> i32 {
    if a < b { -1i32 } else if a > b { 1i32 } else { 0i32 }
}

/// Three-way comparison.
pub fn three_way_i64(a: i64, b: i64) -> (r: i32)
    ensures
        r == three_way(a as int, b as int),
{
    if a < b { -1 } else if a > b { 1 } else { 0 }
}

/// The native returned `v` and left the VM as it was.
pub open spec fn pure_ok(old_vm: &Vm, vm: &Vm, r: R, v: JValue) -> bool {
    *vm == *old_vm && r == Ok::<JValue, NatErr>(v)
}

/// The contents of a `java.lang.String` argument; null or a non-string
/// throws `NullPointerException`.
pub fn jstr(vm: &mut Vm, v: JValue) -> (r: Result<String, NatErr>)
    requires
        old(vm).wf(),
    ensures
        nat_post(old(vm), final(vm)),
        r matches Ok(s) ==> payload_spec(old(vm), v) matches Some(Native::Str(t)) && s@ == t@ && *final(vm) == *old(vm),
        r is Err ==> !(payload_spec(old(vm), v) matches Some(Native::Str(_))) && r->Err_0 is Throw,
{
    match vm.str_of_jvalue(v) {
        Some(s) => Ok(s),
        None => Err(npe(vm)),
    }
}

/// Replaces the payload of object `id`.
pub fn set_payload(vm: &mut Vm, id: u32, n: Native)
    requires
        old(vm).wf(),
        (id as int) < old(vm).arena.objects@.len(),
    ensures
        final(vm).frames == old(vm).frames,
        final(vm).wf(),
        final(vm).arena.objects@ == old(vm).arena.objects@.update(id as int, Object {
            class: old(vm).arena.objects@[id as int].class,
            fields: old(vm).arena.objects@[id as int].fields,
            native: Some(n),
        }),
        final(vm).arena.free == old(vm).arena.free,
        final(vm).intern == old(vm).intern,
        final(vm).classes == old(vm).classes,
        final(vm).dexes == old(vm).dexes,
        final(vm).hot == old(vm).hot,
        final(vm).natives == old(vm).natives,
        final(vm).host_natives == old(vm).host_natives,
        final(vm).perms == old(vm).perms,
{
    let mut obj = Object { class: 0, fields: Vec::new(), native: None };
    vm.arena.objects.set_and_swap(id as usize, &mut obj);
    obj.native = Some(n);
    vm.arena.objects.set_and_swap(id as usize, &mut obj);
    proof {
        assert forall|o: int| 0 <= o < final(vm).arena.objects@.len() implies ((#[trigger] final(vm).arena.objects@[o]).class as int) < final(vm).classes@.len() by {
            if o != id {
                assert(final(vm).arena.objects@[o] == old(vm).arena.objects@[o]);
            }
        }
    }
}

/// The failure of a native called with too few arguments.
fn arity() -> NatErr {
    NatErr::Fatal(JvmError::Fatal(String::from_str("native called with too few arguments")))
}

/// The class, name, signature, receiver flag and implementation of an entry.
pub open spec fn entry_view(e: NativeEntry) -> (Seq<char>, Seq<char>, Seq<char>, bool, NativeFn) {
    (e.class@, e.name@, e.sig@, e.instance, e.f)
}

/// The views of a list of entries.
pub open spec fn entries_view(v: Seq<NativeEntry>) -> Seq<(Seq<char>, Seq<char>, Seq<char>, bool, NativeFn)> {
    v.map_values(|e: NativeEntry| entry_view(e))
}

proof fn lemma_entries_view_add(a: Seq<NativeEntry>, b: Seq<NativeEntry>)
    ensures
        entries_view(a + b) == entries_view(a) + entries_view(b),
{
    assert(entries_view(a + b) =~= entries_view(a) + entries_view(b));
}

/// Built-in native entries, part 0.
pub open spec fn builtin_part_0() -> Seq<(Seq<char>, Seq<char>, Seq<char>, bool, NativeFn)> {
    seq![
        ("Landroid/util/Log;"@, "e"@, "(Ljava/lang/String;Ljava/lang/String;Ljava/lang/Throwable;)I"@, false, NativeFn::Builtin(204)),
        ("Ljava/io/File;"@, "<init>"@, "(Ljava/lang/String;)V"@, true, NativeFn::Builtin(69)),
        ("Ljava/io/File;"@, "<init>"@, "(Ljava/io/File;Ljava/lang/String;)V"@, true, NativeFn::Builtin(67)),
        ("Ljava/io/File;"@, "<init>"@, "(Ljava/lang/String;Ljava/lang/String;)V"@, true, NativeFn::Builtin(68)),
        ("Ljava/io/File;"@, "getPath"@, "()Ljava/lang/String;"@, true, NativeFn::Builtin(66)),
        ("Ljava/io/File;"@, "getName"@, "()Ljava/lang/String;"@, true, NativeFn::Builtin(63)),
        ("Ljava/io/File;"@, "getParent"@, "()Ljava/lang/String;"@, true, NativeFn::Builtin(64)),
        ("Ljava/io/File;"@, "getParentFile"@, "()Ljava/io/File;"@, true, NativeFn::Builtin(65)),
        ("Lkotlin/io/FilesKt;"@, "resolve"@, "(Ljava/io/File;Ljava/lang/String;)Ljava/io/File;"@, false, NativeFn::Builtin(70)),
        ("Landroidx/preference/Preference;"@, "<init>"@, "(Landroid/content/Context;)V"@, true, NativeFn::Builtin(151)),
        ("Landroidx/preference/Preference;"@, "setKey"@, "(Ljava/lang/String;)V"@, true, NativeFn::Builtin(152)),
        ("Landroidx/preference/Preference;"@, "setTitle"@, "(Ljava/lang/CharSequence;)V"@, true, NativeFn::Builtin(152)),
        ("Landroidx/preference/Preference;"@, "setSummary"@, "(Ljava/lang/CharSequence;)V"@, true, NativeFn::Builtin(152)),
        ("Landroidx/preference/Preference;"@, "setDefaultValue"@, "(Ljava/lang/Object;)V"@, true, NativeFn::Builtin(152)),
        ("Landroidx/preference/PreferenceScreen;"@, "<init>"@, "(Landroid/content/Context;)V"@, true, NativeFn::Builtin(151)),
        ("Landroidx/preference/PreferenceScreen;"@, "getContext"@, "()Landroid/content/Context;"@, true, NativeFn::Builtin(150)),
        ("Landroidx/preference/PreferenceScreen;"@, "setTitle"@, "(Ljava/lang/CharSequence;)V"@, true, NativeFn::Builtin(152)),
        ("Landroidx/preference/SwitchPreferenceCompat;"@, "<init>"@, "(Landroid/content/Context;)V"@, true, NativeFn::Builtin(151)),
        ("Landroidx/preference/SwitchPreferenceCompat;"@, "setKey"@, "(Ljava/lang/String;)V"@, true, NativeFn::Builtin(152)),
        ("Landroidx/preference/SwitchPreferenceCompat;"@, "setTitle"@, "(Ljava/lang/CharSequence;)V"@, true, NativeFn::Builtin(152)),
        ("Landroidx/preference/SwitchPreferenceCompat;"@, "setSummary"@, "(Ljava/lang/CharSequence;)V"@, true, NativeFn::Builtin(152)),
        ("Landroidx/preference/SwitchPreferenceCompat;"@, "setDefaultValue"@, "(Ljava/lang/Object;)V"@, true, NativeFn::Builtin(152)),
        ("Landroid/util/Base64;"@, "decode"@, "(Ljava/lang/String;I)[B"@, false, NativeFn::Builtin(9)),
        ("Landroid/util/Base64;"@, "encodeToString"@, "([BI)Ljava/lang/String;"@, false, NativeFn::Builtin(10)),
        ("Landroid/content/Intent;"@, "<init>"@, "()V"@, true, NativeFn::Builtin(101)),
        ("Landroid/content/Intent;"@, "<init>"@, "(Ljava/lang/String;)V"@, true, NativeFn::Builtin(101)),
        ("Landroid/content/Intent;"@, "putExtra"@, "(Ljava/lang/String;Ljava/lang/String;)Landroid/content/Intent;"@, true, NativeFn::Builtin(103)),
        ("Landroid/content/Intent;"@, "putExtra"@, "(Ljava/lang/String;J)Landroid/content/Intent;"@, true, NativeFn::Builtin(102)),
        ("Landroid/content/Intent;"@, "getData"@, "()Landroid/net/Uri;"@, true, NativeFn::Builtin(100)),
        ("Landroid/content/Intent;"@, "setAction"@, "(Ljava/lang/String;)Landroid/content/Intent;"@, true, NativeFn::Builtin(104)),
    ]
}

fn builtin_entries_0() -> (r: Vec<NativeEntry>)
    ensures
        entries_view(r@) == builtin_part_0(),
{
    let mut v: Vec<NativeEntry> = Vec::new();
    v.push(NativeEntry { class: "Landroid/util/Log;", name: "e", sig: "(Ljava/lang/String;Ljava/lang/String;Ljava/lang/Throwable;)I", instance: false, f: NativeFn::Builtin(204) });
    v.push(NativeEntry { class: "Ljava/io/File;", name: "<init>", sig: "(Ljava/lang/String;)V", instance: true, f: NativeFn::Builtin(69) });
    v.push(NativeEntry { class: "Ljava/io/File;", name: "<init>", sig: "(Ljava/io/File;Ljava/lang/String;)V", instance: true, f: NativeFn::Builtin(67) });
    v.push(NativeEntry { class: "Ljava/io/File;", name: "<init>", sig: "(Ljava/lang/String;Ljava/lang/String;)V", instance: true, f: NativeFn::Builtin(68) });
    v.push(NativeEntry { class: "Ljava/io/File;", name: "getPath", sig: "()Ljava/lang/String;", instance: true, f: NativeFn::Builtin(66) });
    v.push(NativeEntry { class: "Ljava/io/File;", name: "getName", sig: "()Ljava/lang/String;", instance: true, f: NativeFn::Builtin(63) });
    v.push(NativeEntry { class: "Ljava/io/File;", name: "getParent", sig: "()Ljava/lang/String;", instance: true, f: NativeFn::Builtin(64) });
    v.push(NativeEntry { class: "Ljava/io/File;", name: "getParentFile", sig: "()Ljava/io/File;", instance: true, f: NativeFn::Builtin(65) });
    v.push(NativeEntry { class: "Lkotlin/io/FilesKt;", name: "resolve", sig: "(Ljava/io/File;Ljava/lang/String;)Ljava/io/File;", instance: false, f: NativeFn::Builtin(70) });
    v.push(NativeEntry { class: "Landroidx/preference/Preference;", name: "<init>", sig: "(Landroid/content/Context;)V", instance: true, f: NativeFn::Builtin(151) });
    v.push(NativeEntry { class: "Landroidx/preference/Preference;", name: "setKey", sig: "(Ljava/lang/String;)V", instance: true, f: NativeFn::Builtin(152) });
    v.push(NativeEntry { class: "Landroidx/preference/Preference;", name: "setTitle", sig: "(Ljava/lang/CharSequence;)V", instance: true, f: NativeFn::Builtin(152) });
    v.push(NativeEntry { class: "Landroidx/preference/Preference;", name: "setSummary", sig: "(Ljava/lang/CharSequence;)V", instance: true, f: NativeFn::Builtin(152) });
    v.push(NativeEntry { class: "Landroidx/preference/Preference;", name: "setDefaultValue", sig: "(Ljava/lang/Object;)V", instance: true, f: NativeFn::Builtin(152) });
    v.push(NativeEntry { class: "Landroidx/preference/PreferenceScreen;", name: "<init>", sig: "(Landroid/content/Context;)V", instance: true, f: NativeFn::Builtin(151) });
    v.push(NativeEntry { class: "Landroidx/preference/PreferenceScreen;", name: "getContext", sig: "()Landroid/content/Context;", instance: true, f: NativeFn::Builtin(150) });
    v.push(NativeEntry { class: "Landroidx/preference/PreferenceScreen;", name: "setTitle", sig: "(Ljava/lang/CharSequence;)V", instance: true, f: NativeFn::Builtin(152) });
    v.push(NativeEntry { class: "Landroidx/preference/SwitchPreferenceCompat;", name: "<init>", sig: "(Landroid/content/Context;)V", instance: true, f: NativeFn::Builtin(151) });
    v.push(NativeEntry { class: "Landroidx/preference/SwitchPreferenceCompat;", name: "setKey", sig: "(Ljava/lang/String;)V", instance: true, f: NativeFn::Builtin(152) });
    v.push(NativeEntry { class: "Landroidx/preference/SwitchPreferenceCompat;", name: "setTitle", sig: "(Ljava/lang/CharSequence;)V", instance: true, f: NativeFn::Builtin(152) });
    v.push(NativeEntry { class: "Landroidx/preference/SwitchPreferenceCompat;", name: "setSummary", sig: "(Ljava/lang/CharSequence;)V", instance: true, f: NativeFn::Builtin(152) });
    v.push(NativeEntry { class: "Landroidx/preference/SwitchPreferenceCompat;", name: "setDefaultValue", sig: "(Ljava/lang/Object;)V", instance: true, f: NativeFn::Builtin(152) });
    v.push(NativeEntry { class: "Landroid/util/Base64;", name: "decode", sig: "(Ljava/lang/String;I)[B", instance: false, f: NativeFn::Builtin(9) });
    v.push(NativeEntry { class: "Landroid/util/Base64;", name: "encodeToString", sig: "([BI)Ljava/lang/String;", instance: false, f: NativeFn::Builtin(10) });
    v.push(NativeEntry { class: "Landroid/content/Intent;", name: "<init>", sig: "()V", instance: true, f: NativeFn::Builtin(101) });
    v.push(NativeEntry { class: "Landroid/content/Intent;", name: "<init>", sig: "(Ljava/lang/String;)V", instance: true, f: NativeFn::Builtin(101) });
    v.push(NativeEntry { class: "Landroid/content/Intent;", name: "putExtra", sig: "(Ljava/lang/String;Ljava/lang/String;)Landroid/content/Intent;", instance: true, f: NativeFn::Builtin(103) });
    v.push(NativeEntry { class: "Landroid/content/Intent;", name: "putExtra", sig: "(Ljava/lang/String;J)Landroid/content/Intent;", instance: true, f: NativeFn::Builtin(102) });
    v.push(NativeEntry { class: "Landroid/content/Intent;", name: "getData", sig: "()Landroid/net/Uri;", instance: true, f: NativeFn::Builtin(100) });
    v.push(NativeEntry { class: "Landroid/content/Intent;", name: "setAction", sig: "(Ljava/lang/String;)Landroid/content/Intent;", instance: true, f: NativeFn::Builtin(104) });
    proof {
        assert(entries_view(v@) =~= builtin_part_0());
    }
    v
}

/// Built-in native entries, part 1.
pub open spec fn builtin_part_1() -> Seq<(Seq<char>, Seq<char>, Seq<char>, bool, NativeFn)> {
    seq![
        ("Landroid/content/ContextWrapper;"@, "startActivity"@, "(Landroid/content/Intent;)V"@, true, NativeFn::Builtin(202)),
        ("Landroid/content/Context;"@, "getPackageName"@, "()Ljava/lang/String;"@, true, NativeFn::Builtin(54)),
        ("Landroid/content/ContextWrapper;"@, "getPackageName"@, "()Ljava/lang/String;"@, true, NativeFn::Builtin(54)),
        ("Landroid/app/Activity;"@, "<init>"@, "()V"@, true, NativeFn::Builtin(2)),
        ("Landroid/app/Activity;"@, "finish"@, "()V"@, true, NativeFn::Builtin(0)),
        ("Landroid/app/Activity;"@, "getIntent"@, "()Landroid/content/Intent;"@, true, NativeFn::Builtin(1)),
        ("Landroid/app/Activity;"@, "onCreate"@, "(Landroid/os/Bundle;)V"@, true, NativeFn::Builtin(202)),
        ("Landroid/util/Log;"@, "e"@, "(Ljava/lang/String;Ljava/lang/String;Ljava/lang/Throwable;)I"@, false, NativeFn::Builtin(204)),
        ("Landroid/util/Base64;"@, "decode"@, "(Ljava/lang/String;I)[B"@, false, NativeFn::Builtin(9)),
        ("Landroid/util/Base64;"@, "encodeToString"@, "([BI)Ljava/lang/String;"@, false, NativeFn::Builtin(10)),
        ("Landroid/widget/TextView;"@, "addTextChangedListener"@, "(Landroid/text/TextWatcher;)V"@, true, NativeFn::Builtin(202)),
        ("Landroid/widget/TextView;"@, "setHint"@, "(Ljava/lang/CharSequence;)V"@, true, NativeFn::Builtin(202)),
        ("Landroid/widget/TextView;"@, "setHorizontallyScrolling"@, "(Z)V"@, true, NativeFn::Builtin(202)),
        ("Landroid/widget/TextView;"@, "setInputType"@, "(I)V"@, true, NativeFn::Builtin(202)),
        ("Landroid/widget/TextView;"@, "getError"@, "()Ljava/lang/CharSequence;"@, true, NativeFn::Builtin(203)),
        ("Landroid/widget/TextView;"@, "setError"@, "(Ljava/lang/CharSequence;)V"@, true, NativeFn::Builtin(202)),
        ("Landroid/widget/TextView;"@, "setMovementMethod"@, "(Landroid/text/method/MovementMethod;)V"@, true, NativeFn::Builtin(202)),
        ("Landroid/widget/EditText;"@, "selectAll"@, "()V"@, true, NativeFn::Builtin(202)),
        ("Landroid/view/View;"@, "findViewById"@, "(I)Landroid/view/View;"@, true, NativeFn::Builtin(203)),
        ("Landroid/view/View;"@, "getRootView"@, "()Landroid/view/View;"@, true, NativeFn::Builtin(219)),
        ("Landroid/view/View;"@, "setEnabled"@, "(Z)V"@, true, NativeFn::Builtin(202)),
        ("Landroid/view/View;"@, "layout"@, "(IIII)V"@, true, NativeFn::Builtin(202)),
        ("Landroid/view/View;"@, "measure"@, "(II)V"@, true, NativeFn::Builtin(202)),
        ("Landroid/view/View;"@, "getParent"@, "()Landroid/view/ViewParent;"@, true, NativeFn::Builtin(203)),
        ("Landroid/view/ViewGroup;"@, "getChildCount"@, "()I"@, true, NativeFn::Builtin(204)),
        ("Landroid/view/ViewGroup;"@, "getChildAt"@, "(I)Landroid/view/View;"@, true, NativeFn::Builtin(203)),
        ("Landroid/view/ViewGroup$LayoutParams;"@, "<init>"@, "(II)V"@, true, NativeFn::Builtin(202)),
        ("Landroid/view/View$MeasureSpec;"@, "makeMeasureSpec"@, "(II)I"@, false, NativeFn::Builtin(132)),
        ("Landroid/widget/Toast;"@, "makeText"@, "(Landroid/content/Context;Ljava/lang/CharSequence;I)Landroid/widget/Toast;"@, false, NativeFn::Builtin(198)),
        ("Landroid/widget/Toast;"@, "show"@, "()V"@, true, NativeFn::Builtin(202)),
    ]
}

fn builtin_entries_1() -> (r: Vec<NativeEntry>)
    ensures
        entries_view(r@) == builtin_part_1(),
{
    let mut v: Vec<NativeEntry> = Vec::new();
    v.push(NativeEntry { class: "Landroid/content/ContextWrapper;", name: "startActivity", sig: "(Landroid/content/Intent;)V", instance: true, f: NativeFn::Builtin(202) });
    v.push(NativeEntry { class: "Landroid/content/Context;", name: "getPackageName", sig: "()Ljava/lang/String;", instance: true, f: NativeFn::Builtin(54) });
    v.push(NativeEntry { class: "Landroid/content/ContextWrapper;", name: "getPackageName", sig: "()Ljava/lang/String;", instance: true, f: NativeFn::Builtin(54) });
    v.push(NativeEntry { class: "Landroid/app/Activity;", name: "<init>", sig: "()V", instance: true, f: NativeFn::Builtin(2) });
    v.push(NativeEntry { class: "Landroid/app/Activity;", name: "finish", sig: "()V", instance: true, f: NativeFn::Builtin(0) });
    v.push(NativeEntry { class: "Landroid/app/Activity;", name: "getIntent", sig: "()Landroid/content/Intent;", instance: true, f: NativeFn::Builtin(1) });
    v.push(NativeEntry { class: "Landroid/app/Activity;", name: "onCreate", sig: "(Landroid/os/Bundle;)V", instance: true, f: NativeFn::Builtin(202) });
    v.push(NativeEntry { class: "Landroid/util/Log;", name: "e", sig: "(Ljava/lang/String;Ljava/lang/String;Ljava/lang/Throwable;)I", instance: false, f: NativeFn::Builtin(204) });
    v.push(NativeEntry { class: "Landroid/util/Base64;", name: "decode", sig: "(Ljava/lang/String;I)[B", instance: false, f: NativeFn::Builtin(9) });
    v.push(NativeEntry { class: "Landroid/util/Base64;", name: "encodeToString", sig: "([BI)Ljava/lang/String;", instance: false, f: NativeFn::Builtin(10) });
    v.push(NativeEntry { class: "Landroid/widget/TextView;", name: "addTextChangedListener", sig: "(Landroid/text/TextWatcher;)V", instance: true, f: NativeFn::Builtin(202) });
    v.push(NativeEntry { class: "Landroid/widget/TextView;", name: "setHint", sig: "(Ljava/lang/CharSequence;)V", instance: true, f: NativeFn::Builtin(202) });
    v.push(NativeEntry { class: "Landroid/widget/TextView;", name: "setHorizontallyScrolling", sig: "(Z)V", instance: true, f: NativeFn::Builtin(202) });
    v.push(NativeEntry { class: "Landroid/widget/TextView;", name: "setInputType", sig: "(I)V", instance: true, f: NativeFn::Builtin(202) });
    v.push(NativeEntry { class: "Landroid/widget/TextView;", name: "getError", sig: "()Ljava/lang/CharSequence;", instance: true, f: NativeFn::Builtin(203) });
    v.push(NativeEntry { class: "Landroid/widget/TextView;", name: "setError", sig: "(Ljava/lang/CharSequence;)V", instance: true, f: NativeFn::Builtin(202) });
    v.push(NativeEntry { class: "Landroid/widget/TextView;", name: "setMovementMethod", sig: "(Landroid/text/method/MovementMethod;)V", instance: true, f: NativeFn::Builtin(202) });
    v.push(NativeEntry { class: "Landroid/widget/EditText;", name: "selectAll", sig: "()V", instance: true, f: NativeFn::Builtin(202) });
    v.push(NativeEntry { class: "Landroid/view/View;", name: "findViewById", sig: "(I)Landroid/view/View;", instance: true, f: NativeFn::Builtin(203) });
    v.push(NativeEntry { class: "Landroid/view/View;", name: "getRootView", sig: "()Landroid/view/View;", instance: true, f: NativeFn::Builtin(219) });
    v.push(NativeEntry { class: "Landroid/view/View;", name: "setEnabled", sig: "(Z)V", instance: true, f: NativeFn::Builtin(202) });
    v.push(NativeEntry { class: "Landroid/view/View;", name: "layout", sig: "(IIII)V", instance: true, f: NativeFn::Builtin(202) });
    v.push(NativeEntry { class: "Landroid/view/View;", name: "measure", sig: "(II)V", instance: true, f: NativeFn::Builtin(202) });
    v.push(NativeEntry { class: "Landroid/view/View;", name: "getParent", sig: "()Landroid/view/ViewParent;", instance: true, f: NativeFn::Builtin(203) });
    v.push(NativeEntry { class: "Landroid/view/ViewGroup;", name: "getChildCount", sig: "()I", instance: true, f: NativeFn::Builtin(204) });
    v.push(NativeEntry { class: "Landroid/view/ViewGroup;", name: "getChildAt", sig: "(I)Landroid/view/View;", instance: true, f: NativeFn::Builtin(203) });
    v.push(NativeEntry { class: "Landroid/view/ViewGroup$LayoutParams;", name: "<init>", sig: "(II)V", instance: true, f: NativeFn::Builtin(202) });
    v.push(NativeEntry { class: "Landroid/view/View$MeasureSpec;", name: "makeMeasureSpec", sig: "(II)I", instance: false, f: NativeFn::Builtin(132) });
    v.push(NativeEntry { class: "Landroid/widget/Toast;", name: "makeText", sig: "(Landroid/content/Context;Ljava/lang/CharSequence;I)Landroid/widget/Toast;", instance: false, f: NativeFn::Builtin(198) });
    v.push(NativeEntry { class: "Landroid/widget/Toast;", name: "show", sig: "()V", instance: true, f: NativeFn::Builtin(202) });
    proof {
        assert(entries_view(v@) =~= builtin_part_1());
    }
    v
}

/// Built-in native entries, part 2.
pub open spec fn builtin_part_2() -> Seq<(Seq<char>, Seq<char>, Seq<char>, bool, NativeFn)> {
    seq![
        ("Landroid/os/Looper;"@, "getMainLooper"@, "()Landroid/os/Looper;"@, false, NativeFn::Builtin(127)),
        ("Landroid/os/Looper;"@, "myLooper"@, "()Landroid/os/Looper;"@, false, NativeFn::Builtin(127)),
        ("Landroid/os/Handler;"@, "<init>"@, "(Landroid/os/Looper;)V"@, true, NativeFn::Builtin(202)),
        ("Landroid/os/Handler;"@, "removeCallbacks"@, "(Ljava/lang/Runnable;)V"@, true, NativeFn::Builtin(202)),
        ("Landroid/os/ParcelFileDescriptor;"@, "open"@, "(Ljava/io/File;I)Landroid/os/ParcelFileDescriptor;"@, false, NativeFn::Builtin(147)),
        ("Landroid/webkit/WebView;"@, "<init>"@, "(Landroid/content/Context;)V"@, true, NativeFn::Builtin(202)),
        ("Landroid/webkit/WebView;"@, "getSettings"@, "()Landroid/webkit/WebSettings;"@, true, NativeFn::Builtin(221)),
        ("Landroid/webkit/WebView;"@, "destroy"@, "()V"@, true, NativeFn::Builtin(202)),
        ("Landroid/webkit/WebView;"@, "stopLoading"@, "()V"@, true, NativeFn::Builtin(202)),
        ("Landroid/webkit/WebView;"@, "evaluateJavascript"@, "(Ljava/lang/String;Landroid/webkit/ValueCallback;)V"@, true, NativeFn::Builtin(202)),
        ("Landroid/webkit/WebView;"@, "loadDataWithBaseURL"@, "(Ljava/lang/String;Ljava/lang/String;Ljava/lang/String;Ljava/lang/String;Ljava/lang/String;)V"@, true, NativeFn::Builtin(202)),
        ("Landroid/webkit/WebView;"@, "loadUrl"@, "(Ljava/lang/String;)V"@, true, NativeFn::Builtin(202)),
        ("Landroid/webkit/WebView;"@, "loadUrl"@, "(Ljava/lang/String;Ljava/util/Map;)V"@, true, NativeFn::Builtin(202)),
        ("Landroid/webkit/WebView;"@, "addJavascriptInterface"@, "(Ljava/lang/Object;Ljava/lang/String;)V"@, true, NativeFn::Builtin(202)),
        ("Landroid/webkit/WebView;"@, "removeJavascriptInterface"@, "(Ljava/lang/String;)V"@, true, NativeFn::Builtin(202)),
        ("Landroid/webkit/WebView;"@, "setWebViewClient"@, "(Landroid/webkit/WebViewClient;)V"@, true, NativeFn::Builtin(202)),
        ("Landroid/webkit/WebView;"@, "setWebChromeClient"@, "(Landroid/webkit/WebChromeClient;)V"@, true, NativeFn::Builtin(202)),
        ("Landroid/webkit/WebView;"@, "setLayoutParams"@, "(Landroid/view/ViewGroup$LayoutParams;)V"@, true, NativeFn::Builtin(202)),
        ("Landroid/webkit/WebView;"@, "setLayerType"@, "(ILandroid/graphics/Paint;)V"@, true, NativeFn::Builtin(202)),
        ("Landroid/webkit/WebView;"@, "onResume"@, "()V"@, true, NativeFn::Builtin(202)),
        ("Landroid/webkit/WebView;"@, "resumeTimers"@, "()V"@, false, NativeFn::Builtin(202)),
        ("Landroid/webkit/WebViewClient;"@, "<init>"@, "()V"@, true, NativeFn::Builtin(202)),
        ("Landroid/webkit/WebViewClient;"@, "shouldInterceptRequest"@, "(Landroid/webkit/WebView;Landroid/webkit/WebResourceRequest;)Landroid/webkit/WebResourceResponse;"@, true, NativeFn::Builtin(203)),
        ("Landroid/webkit/WebViewClient;"@, "onPageFinished"@, "(Landroid/webkit/WebView;Ljava/lang/String;)V"@, true, NativeFn::Builtin(202)),
        ("Landroid/webkit/WebViewClient;"@, "onPageStarted"@, "(Landroid/webkit/WebView;Ljava/lang/String;Landroid/graphics/Bitmap;)V"@, true, NativeFn::Builtin(202)),
        ("Landroid/webkit/WebChromeClient;"@, "<init>"@, "()V"@, true, NativeFn::Builtin(202)),
        ("Landroid/webkit/WebSettings;"@, "setJavaScriptEnabled"@, "(Z)V"@, true, NativeFn::Builtin(202)),
        ("Landroid/webkit/WebSettings;"@, "setDomStorageEnabled"@, "(Z)V"@, true, NativeFn::Builtin(202)),
        ("Landroid/webkit/WebSettings;"@, "setBlockNetworkImage"@, "(Z)V"@, true, NativeFn::Builtin(202)),
        ("Landroid/webkit/WebSettings;"@, "setUserAgentString"@, "(Ljava/lang/String;)V"@, true, NativeFn::Builtin(202)),
    ]
}

fn builtin_entries_2() -> (r: Vec<NativeEntry>)
    ensures
        entries_view(r@) == builtin_part_2(),
{
    let mut v: Vec<NativeEntry> = Vec::new();
    v.push(NativeEntry { class: "Landroid/os/Looper;", name: "getMainLooper", sig: "()Landroid/os/Looper;", instance: false, f: NativeFn::Builtin(127) });
    v.push(NativeEntry { class: "Landroid/os/Looper;", name: "myLooper", sig: "()Landroid/os/Looper;", instance: false, f: NativeFn::Builtin(127) });
    v.push(NativeEntry { class: "Landroid/os/Handler;", name: "<init>", sig: "(Landroid/os/Looper;)V", instance: true, f: NativeFn::Builtin(202) });
    v.push(NativeEntry { class: "Landroid/os/Handler;", name: "removeCallbacks", sig: "(Ljava/lang/Runnable;)V", instance: true, f: NativeFn::Builtin(202) });
    v.push(NativeEntry { class: "Landroid/os/ParcelFileDescriptor;", name: "open", sig: "(Ljava/io/File;I)Landroid/os/ParcelFileDescriptor;", instance: false, f: NativeFn::Builtin(147) });
    v.push(NativeEntry { class: "Landroid/webkit/WebView;", name: "<init>", sig: "(Landroid/content/Context;)V", instance: true, f: NativeFn::Builtin(202) });
    v.push(NativeEntry { class: "Landroid/webkit/WebView;", name: "getSettings", sig: "()Landroid/webkit/WebSettings;", instance: true, f: NativeFn::Builtin(221) });
    v.push(NativeEntry { class: "Landroid/webkit/WebView;", name: "destroy", sig: "()V", instance: true, f: NativeFn::Builtin(202) });
    v.push(NativeEntry { class: "Landroid/webkit/WebView;", name: "stopLoading", sig: "()V", instance: true, f: NativeFn::Builtin(202) });
    v.push(NativeEntry { class: "Landroid/webkit/WebView;", name: "evaluateJavascript", sig: "(Ljava/lang/String;Landroid/webkit/ValueCallback;)V", instance: true, f: NativeFn::Builtin(202) });
    v.push(NativeEntry { class: "Landroid/webkit/WebView;", name: "loadDataWithBaseURL", sig: "(Ljava/lang/String;Ljava/lang/String;Ljava/lang/String;Ljava/lang/String;Ljava/lang/String;)V", instance: true, f: NativeFn::Builtin(202) });
    v.push(NativeEntry { class: "Landroid/webkit/WebView;", name: "loadUrl", sig: "(Ljava/lang/String;)V", instance: true, f: NativeFn::Builtin(202) });
    v.push(NativeEntry { class: "Landroid/webkit/WebView;", name: "loadUrl", sig: "(Ljava/lang/String;Ljava/util/Map;)V", instance: true, f: NativeFn::Builtin(202) });
    v.push(NativeEntry { class: "Landroid/webkit/WebView;", name: "addJavascriptInterface", sig: "(Ljava/lang/Object;Ljava/lang/String;)V", instance: true, f: NativeFn::Builtin(202) });
    v.push(NativeEntry { class: "Landroid/webkit/WebView;", name: "removeJavascriptInterface", sig: "(Ljava/lang/String;)V", instance: true, f: NativeFn::Builtin(202) });
    v.push(NativeEntry { class: "Landroid/webkit/WebView;", name: "setWebViewClient", sig: "(Landroid/webkit/WebViewClient;)V", instance: true, f: NativeFn::Builtin(202) });
    v.push(NativeEntry { class: "Landroid/webkit/WebView;", name: "setWebChromeClient", sig: "(Landroid/webkit/WebChromeClient;)V", instance: true, f: NativeFn::Builtin(202) });
    v.push(NativeEntry { class: "Landroid/webkit/WebView;", name: "setLayoutParams", sig: "(Landroid/view/ViewGroup$LayoutParams;)V", instance: true, f: NativeFn::Builtin(202) });
    v.push(NativeEntry { class: "Landroid/webkit/WebView;", name: "setLayerType", sig: "(ILandroid/graphics/Paint;)V", instance: true, f: NativeFn::Builtin(202) });
    v.push(NativeEntry { class: "Landroid/webkit/WebView;", name: "onResume", sig: "()V", instance: true, f: NativeFn::Builtin(202) });
    v.push(NativeEntry { class: "Landroid/webkit/WebView;", name: "resumeTimers", sig: "()V", instance: false, f: NativeFn::Builtin(202) });
    v.push(NativeEntry { class: "Landroid/webkit/WebViewClient;", name: "<init>", sig: "()V", instance: true, f: NativeFn::Builtin(202) });
    v.push(NativeEntry { class: "Landroid/webkit/WebViewClient;", name: "shouldInterceptRequest", sig: "(Landroid/webkit/WebView;Landroid/webkit/WebResourceRequest;)Landroid/webkit/WebResourceResponse;", instance: true, f: NativeFn::Builtin(203) });
    v.push(NativeEntry { class: "Landroid/webkit/WebViewClient;", name: "onPageFinished", sig: "(Landroid/webkit/WebView;Ljava/lang/String;)V", instance: true, f: NativeFn::Builtin(202) });
    v.push(NativeEntry { class: "Landroid/webkit/WebViewClient;", name: "onPageStarted", sig: "(Landroid/webkit/WebView;Ljava/lang/String;Landroid/graphics/Bitmap;)V", instance: true, f: NativeFn::Builtin(202) });
    v.push(NativeEntry { class: "Landroid/webkit/WebChromeClient;", name: "<init>", sig: "()V", instance: true, f: NativeFn::Builtin(202) });
    v.push(NativeEntry { class: "Landroid/webkit/WebSettings;", name: "setJavaScriptEnabled", sig: "(Z)V", instance: true, f: NativeFn::Builtin(202) });
    v.push(NativeEntry { class: "Landroid/webkit/WebSettings;", name: "setDomStorageEnabled", sig: "(Z)V", instance: true, f: NativeFn::Builtin(202) });
    v.push(NativeEntry { class: "Landroid/webkit/WebSettings;", name: "setBlockNetworkImage", sig: "(Z)V", instance: true, f: NativeFn::Builtin(202) });
    v.push(NativeEntry { class: "Landroid/webkit/WebSettings;", name: "setUserAgentString", sig: "(Ljava/lang/String;)V", instance: true, f: NativeFn::Builtin(202) });
    proof {
        assert(entries_view(v@) =~= builtin_part_2());
    }
    v
}

/// Built-in native entries, part 3.
pub open spec fn builtin_part_3() -> Seq<(Seq<char>, Seq<char>, Seq<char>, bool, NativeFn)> {
    seq![
        ("Landroid/webkit/WebSettings;"@, "setLoadWithOverviewMode"@, "(Z)V"@, true, NativeFn::Builtin(202)),
        ("Landroid/webkit/WebSettings;"@, "setUseWideViewPort"@, "(Z)V"@, true, NativeFn::Builtin(202)),
        ("Landroid/webkit/WebSettings;"@, "setDatabaseEnabled"@, "(Z)V"@, true, NativeFn::Builtin(202)),
        ("Landroid/webkit/WebSettings;"@, "setBlockNetworkLoads"@, "(Z)V"@, true, NativeFn::Builtin(202)),
        ("Landroid/webkit/WebSettings;"@, "setLoadsImagesAutomatically"@, "(Z)V"@, true, NativeFn::Builtin(202)),
        ("Landroid/webkit/WebSettings;"@, "getUserAgentString"@, "()Ljava/lang/String;"@, true, NativeFn::Builtin(57)),
        ("Landroid/webkit/WebSettings;"@, "getBlockNetworkImage"@, "()Z"@, true, NativeFn::Builtin(201)),
        ("Landroid/webkit/WebSettings;"@, "getDomStorageEnabled"@, "()Z"@, true, NativeFn::Builtin(201)),
        ("Landroid/webkit/WebSettings;"@, "getJavaScriptEnabled"@, "()Z"@, true, NativeFn::Builtin(201)),
        ("Landroid/webkit/WebSettings;"@, "getLoadWithOverviewMode"@, "()Z"@, true, NativeFn::Builtin(201)),
        ("Landroid/webkit/WebSettings;"@, "getUseWideViewPort"@, "()Z"@, true, NativeFn::Builtin(201)),
        ("Landroid/webkit/WebSettings;"@, "getDefaultUserAgent"@, "(Landroid/content/Context;)Ljava/lang/String;"@, false, NativeFn::Builtin(57)),
        ("Landroid/webkit/ConsoleMessage$MessageLevel;"@, "values"@, "()[Landroid/webkit/ConsoleMessage$MessageLevel;"@, false, NativeFn::Builtin(53)),
        ("Landroid/webkit/ConsoleMessage;"@, "lineNumber"@, "()I"@, true, NativeFn::Builtin(204)),
        ("Landroid/webkit/ConsoleMessage;"@, "message"@, "()Ljava/lang/String;"@, true, NativeFn::Builtin(200)),
        ("Landroid/webkit/ConsoleMessage;"@, "messageLevel"@, "()Landroid/webkit/ConsoleMessage$MessageLevel;"@, true, NativeFn::Builtin(203)),
        ("Landroid/webkit/ConsoleMessage;"@, "sourceId"@, "()Ljava/lang/String;"@, true, NativeFn::Builtin(200)),
        ("Landroid/webkit/RenderProcessGoneDetail;"@, "didCrash"@, "()Z"@, true, NativeFn::Builtin(201)),
        ("Landroid/webkit/WebResourceRequest;"@, "getUrl"@, "()Landroid/net/Uri;"@, true, NativeFn::Builtin(203)),
        ("Landroid/webkit/WebResourceRequest;"@, "getRequestHeaders"@, "()Ljava/util/Map;"@, true, NativeFn::Builtin(220)),
        ("Landroid/webkit/WebResourceRequest;"@, "getMethod"@, "()Ljava/lang/String;"@, true, NativeFn::Builtin(200)),
        ("Landroid/webkit/WebResourceRequest;"@, "isForMainFrame"@, "()Z"@, true, NativeFn::Builtin(201)),
        ("Landroid/webkit/WebResourceResponse;"@, "<init>"@, "(Ljava/lang/String;Ljava/lang/String;Ljava/io/InputStream;)V"@, true, NativeFn::Builtin(202)),
        ("Landroid/webkit/WebResourceResponse;"@, "<init>"@, "(Ljava/lang/String;Ljava/lang/String;ILjava/lang/String;Ljava/util/Map;Ljava/io/InputStream;)V"@, true, NativeFn::Builtin(202)),
        ("Landroid/webkit/WebResourceResponse;"@, "getStatusCode"@, "()I"@, true, NativeFn::Builtin(204)),
        ("Landroid/webkit/SslErrorHandler;"@, "proceed"@, "()V"@, true, NativeFn::Builtin(202)),
        ("Landroid/webkit/URLUtil;"@, "isValidUrl"@, "(Ljava/lang/String;)Z"@, false, NativeFn::Builtin(218)),
        ("Landroid/webkit/CookieManager;"@, "getInstance"@, "()Landroid/webkit/CookieManager;"@, false, NativeFn::Builtin(56)),
        ("Landroid/webkit/CookieManager;"@, "setCookie"@, "(Ljava/lang/String;Ljava/lang/String;)V"@, true, NativeFn::Builtin(202)),
        ("Landroid/webkit/CookieManager;"@, "getCookie"@, "(Ljava/lang/String;)Ljava/lang/String;"@, true, NativeFn::Builtin(203)),
    ]
}

fn builtin_entries_3() -> (r: Vec<NativeEntry>)
    ensures
        entries_view(r@) == builtin_part_3(),
{
    let mut v: Vec<NativeEntry> = Vec::new();
    v.push(NativeEntry { class: "Landroid/webkit/WebSettings;", name: "setLoadWithOverviewMode", sig: "(Z)V", instance: true, f: NativeFn::Builtin(202) });
    v.push(NativeEntry { class: "Landroid/webkit/WebSettings;", name: "setUseWideViewPort", sig: "(Z)V", instance: true, f: NativeFn::Builtin(202) });
    v.push(NativeEntry { class: "Landroid/webkit/WebSettings;", name: "setDatabaseEnabled", sig: "(Z)V", instance: true, f: NativeFn::Builtin(202) });
    v.push(NativeEntry { class: "Landroid/webkit/WebSettings;", name: "setBlockNetworkLoads", sig: "(Z)V", instance: true, f: NativeFn::Builtin(202) });
    v.push(NativeEntry { class: "Landroid/webkit/WebSettings;", name: "setLoadsImagesAutomatically", sig: "(Z)V", instance: true, f: NativeFn::Builtin(202) });
    v.push(NativeEntry { class: "Landroid/webkit/WebSettings;", name: "getUserAgentString", sig: "()Ljava/lang/String;", instance: true, f: NativeFn::Builtin(57) });
    v.push(NativeEntry { class: "Landroid/webkit/WebSettings;", name: "getBlockNetworkImage", sig: "()Z", instance: true, f: NativeFn::Builtin(201) });
    v.push(NativeEntry { class: "Landroid/webkit/WebSettings;", name: "getDomStorageEnabled", sig: "()Z", instance: true, f: NativeFn::Builtin(201) });
    v.push(NativeEntry { class: "Landroid/webkit/WebSettings;", name: "getJavaScriptEnabled", sig: "()Z", instance: true, f: NativeFn::Builtin(201) });
    v.push(NativeEntry { class: "Landroid/webkit/WebSettings;", name: "getLoadWithOverviewMode", sig: "()Z", instance: true, f: NativeFn::Builtin(201) });
    v.push(NativeEntry { class: "Landroid/webkit/WebSettings;", name: "getUseWideViewPort", sig: "()Z", instance: true, f: NativeFn::Builtin(201) });
    v.push(NativeEntry { class: "Landroid/webkit/WebSettings;", name: "getDefaultUserAgent", sig: "(Landroid/content/Context;)Ljava/lang/String;", instance: false, f: NativeFn::Builtin(57) });
    v.push(NativeEntry { class: "Landroid/webkit/ConsoleMessage$MessageLevel;", name: "values", sig: "()[Landroid/webkit/ConsoleMessage$MessageLevel;", instance: false, f: NativeFn::Builtin(53) });
    v.push(NativeEntry { class: "Landroid/webkit/ConsoleMessage;", name: "lineNumber", sig: "()I", instance: true, f: NativeFn::Builtin(204) });
    v.push(NativeEntry { class: "Landroid/webkit/ConsoleMessage;", name: "message", sig: "()Ljava/lang/String;", instance: true, f: NativeFn::Builtin(200) });
    v.push(NativeEntry { class: "Landroid/webkit/ConsoleMessage;", name: "messageLevel", sig: "()Landroid/webkit/ConsoleMessage$MessageLevel;", instance: true, f: NativeFn::Builtin(203) });
    v.push(NativeEntry { class: "Landroid/webkit/ConsoleMessage;", name: "sourceId", sig: "()Ljava/lang/String;", instance: true, f: NativeFn::Builtin(200) });
    v.push(NativeEntry { class: "Landroid/webkit/RenderProcessGoneDetail;", name: "didCrash", sig: "()Z", instance: true, f: NativeFn::Builtin(201) });
    v.push(NativeEntry { class: "Landroid/webkit/WebResourceRequest;", name: "getUrl", sig: "()Landroid/net/Uri;", instance: true, f: NativeFn::Builtin(203) });
    v.push(NativeEntry { class: "Landroid/webkit/WebResourceRequest;", name: "getRequestHeaders", sig: "()Ljava/util/Map;", instance: true, f: NativeFn::Builtin(220) });
    v.push(NativeEntry { class: "Landroid/webkit/WebResourceRequest;", name: "getMethod", sig: "()Ljava/lang/String;", instance: true, f: NativeFn::Builtin(200) });
    v.push(NativeEntry { class: "Landroid/webkit/WebResourceRequest;", name: "isForMainFrame", sig: "()Z", instance: true, f: NativeFn::Builtin(201) });
    v.push(NativeEntry { class: "Landroid/webkit/WebResourceResponse;", name: "<init>", sig: "(Ljava/lang/String;Ljava/lang/String;Ljava/io/InputStream;)V", instance: true, f: NativeFn::Builtin(202) });
    v.push(NativeEntry { class: "Landroid/webkit/WebResourceResponse;", name: "<init>", sig: "(Ljava/lang/String;Ljava/lang/String;ILjava/lang/String;Ljava/util/Map;Ljava/io/InputStream;)V", instance: true, f: NativeFn::Builtin(202) });
    v.push(NativeEntry { class: "Landroid/webkit/WebResourceResponse;", name: "getStatusCode", sig: "()I", instance: true, f: NativeFn::Builtin(204) });
    v.push(NativeEntry { class: "Landroid/webkit/SslErrorHandler;", name: "proceed", sig: "()V", instance: true, f: NativeFn::Builtin(202) });
    v.push(NativeEntry { class: "Landroid/webkit/URLUtil;", name: "isValidUrl", sig: "(Ljava/lang/String;)Z", instance: false, f: NativeFn::Builtin(218) });
    v.push(NativeEntry { class: "Landroid/webkit/CookieManager;", name: "getInstance", sig: "()Landroid/webkit/CookieManager;", instance: false, f: NativeFn::Builtin(56) });
    v.push(NativeEntry { class: "Landroid/webkit/CookieManager;", name: "setCookie", sig: "(Ljava/lang/String;Ljava/lang/String;)V", instance: true, f: NativeFn::Builtin(202) });
    v.push(NativeEntry { class: "Landroid/webkit/CookieManager;", name: "getCookie", sig: "(Ljava/lang/String;)Ljava/lang/String;", instance: true, f: NativeFn::Builtin(203) });
    proof {
        assert(entries_view(v@) =~= builtin_part_3());
    }
    v
}

/// Built-in native entries, part 4.
pub open spec fn builtin_part_4() -> Seq<(Seq<char>, Seq<char>, Seq<char>, bool, NativeFn)> {
    seq![
        ("Landroid/webkit/CookieManager;"@, "setAcceptCookie"@, "(Z)V"@, true, NativeFn::Builtin(202)),
        ("Landroid/webkit/CookieManager;"@, "setAcceptThirdPartyCookies"@, "(Landroid/webkit/WebView;Z)V"@, true, NativeFn::Builtin(202)),
        ("Landroid/text/Html;"@, "fromHtml"@, "(Ljava/lang/String;I)Landroid/text/Spanned;"@, false, NativeFn::Builtin(73)),
        ("Landroid/text/StaticLayout;"@, "getLineCount"@, "()I"@, true, NativeFn::Builtin(204)),
        ("Landroid/text/Layout;"@, "getHeight"@, "()I"@, true, NativeFn::Builtin(204)),
        ("Landroid/text/StaticLayout$Builder;"@, "setBreakStrategy"@, "(I)Landroid/text/StaticLayout$Builder;"@, true, NativeFn::Builtin(176)),
        ("Landroid/text/StaticLayout$Builder;"@, "setHyphenationFrequency"@, "(I)Landroid/text/StaticLayout$Builder;"@, true, NativeFn::Builtin(176)),
        ("Landroid/text/StaticLayout$Builder;"@, "setAlignment"@, "(Landroid/text/Layout$Alignment;)Landroid/text/StaticLayout$Builder;"@, true, NativeFn::Builtin(176)),
        ("Landroid/text/StaticLayout$Builder;"@, "setIncludePad"@, "(Z)Landroid/text/StaticLayout$Builder;"@, true, NativeFn::Builtin(176)),
        ("Landroid/text/SpannableString;"@, "<init>"@, "(Ljava/lang/CharSequence;)V"@, true, NativeFn::Builtin(202)),
        ("Landroid/text/method/LinkMovementMethod;"@, "getInstance"@, "()Landroid/text/method/MovementMethod;"@, false, NativeFn::Builtin(109)),
        ("Landroid/text/util/Linkify;"@, "addLinks"@, "(Landroid/text/Spannable;I)Z"@, false, NativeFn::Builtin(201)),
        ("Landroid/net/Uri;"@, "encode"@, "(Ljava/lang/String;)Ljava/lang/String;"@, false, NativeFn::Builtin(212)),
        ("Landroid/net/Uri;"@, "parse"@, "(Ljava/lang/String;)Landroid/net/Uri;"@, false, NativeFn::Builtin(217)),
        ("Landroid/net/Uri;"@, "buildUpon"@, "()Landroid/net/Uri$Builder;"@, true, NativeFn::Builtin(205)),
        ("Landroid/net/Uri;"@, "getHost"@, "()Ljava/lang/String;"@, true, NativeFn::Builtin(215)),
        ("Landroid/net/Uri;"@, "getPath"@, "()Ljava/lang/String;"@, true, NativeFn::Builtin(216)),
        ("Landroid/net/Uri;"@, "getEncodedPath"@, "()Ljava/lang/String;"@, true, NativeFn::Builtin(213)),
        ("Landroid/net/Uri;"@, "getEncodedQuery"@, "()Ljava/lang/String;"@, true, NativeFn::Builtin(214)),
        ("Landroid/net/Uri$Builder;"@, "appendQueryParameter"@, "(Ljava/lang/String;Ljava/lang/String;)Landroid/net/Uri$Builder;"@, true, NativeFn::Builtin(208)),
        ("Landroid/net/Uri$Builder;"@, "appendPath"@, "(Ljava/lang/String;)Landroid/net/Uri$Builder;"@, true, NativeFn::Builtin(207)),
        ("Landroid/net/Uri$Builder;"@, "appendEncodedPath"@, "(Ljava/lang/String;)Landroid/net/Uri$Builder;"@, true, NativeFn::Builtin(206)),
        ("Landroid/net/Uri$Builder;"@, "fragment"@, "(Ljava/lang/String;)Landroid/net/Uri$Builder;"@, true, NativeFn::Builtin(210)),
        ("Landroid/net/Uri$Builder;"@, "build"@, "()Landroid/net/Uri;"@, true, NativeFn::Builtin(209)),
        ("Landroid/net/Uri$Builder;"@, "toString"@, "()Ljava/lang/String;"@, true, NativeFn::Builtin(211)),
        ("Landroid/content/ComponentName;"@, "<init>"@, "(Landroid/content/Context;Ljava/lang/String;)V"@, true, NativeFn::Builtin(202)),
        ("Landroid/content/ContextWrapper;"@, "getApplicationInfo"@, "()Landroid/content/pm/ApplicationInfo;"@, true, NativeFn::Builtin(55)),
        ("Landroid/content/ContextWrapper;"@, "getSystemService"@, "(Ljava/lang/String;)Ljava/lang/Object;"@, true, NativeFn::Builtin(203)),
        ("Landroid/content/Intent;"@, "addFlags"@, "(I)Landroid/content/Intent;"@, true, NativeFn::Builtin(99)),
        ("Landroid/content/Intent;"@, "setComponent"@, "(Landroid/content/ComponentName;)Landroid/content/Intent;"@, true, NativeFn::Builtin(105)),
    ]
}

fn builtin_entries_4() -> (r: Vec<NativeEntry>)
    ensures
        entries_view(r@) == builtin_part_4(),
{
    let mut v: Vec<NativeEntry> = Vec::new();
    v.push(NativeEntry { class: "Landroid/webkit/CookieManager;", name: "setAcceptCookie", sig: "(Z)V", instance: true, f: NativeFn::Builtin(202) });
    v.push(NativeEntry { class: "Landroid/webkit/CookieManager;", name: "setAcceptThirdPartyCookies", sig: "(Landroid/webkit/WebView;Z)V", instance: true, f: NativeFn::Builtin(202) });
    v.push(NativeEntry { class: "Landroid/text/Html;", name: "fromHtml", sig: "(Ljava/lang/String;I)Landroid/text/Spanned;", instance: false, f: NativeFn::Builtin(73) });
    v.push(NativeEntry { class: "Landroid/text/StaticLayout;", name: "getLineCount", sig: "()I", instance: true, f: NativeFn::Builtin(204) });
    v.push(NativeEntry { class: "Landroid/text/Layout;", name: "getHeight", sig: "()I", instance: true, f: NativeFn::Builtin(204) });
    v.push(NativeEntry { class: "Landroid/text/StaticLayout$Builder;", name: "setBreakStrategy", sig: "(I)Landroid/text/StaticLayout$Builder;", instance: true, f: NativeFn::Builtin(176) });
    v.push(NativeEntry { class: "Landroid/text/StaticLayout$Builder;", name: "setHyphenationFrequency", sig: "(I)Landroid/text/StaticLayout$Builder;", instance: true, f: NativeFn::Builtin(176) });
    v.push(NativeEntry { class: "Landroid/text/StaticLayout$Builder;", name: "setAlignment", sig: "(Landroid/text/Layout$Alignment;)Landroid/text/StaticLayout$Builder;", instance: true, f: NativeFn::Builtin(176) });
    v.push(NativeEntry { class: "Landroid/text/StaticLayout$Builder;", name: "setIncludePad", sig: "(Z)Landroid/text/StaticLayout$Builder;", instance: true, f: NativeFn::Builtin(176) });
    v.push(NativeEntry { class: "Landroid/text/SpannableString;", name: "<init>", sig: "(Ljava/lang/CharSequence;)V", instance: true, f: NativeFn::Builtin(202) });
    v.push(NativeEntry { class: "Landroid/text/method/LinkMovementMethod;", name: "getInstance", sig: "()Landroid/text/method/MovementMethod;", instance: false, f: NativeFn::Builtin(109) });
    v.push(NativeEntry { class: "Landroid/text/util/Linkify;", name: "addLinks", sig: "(Landroid/text/Spannable;I)Z", instance: false, f: NativeFn::Builtin(201) });
    v.push(NativeEntry { class: "Landroid/net/Uri;", name: "encode", sig: "(Ljava/lang/String;)Ljava/lang/String;", instance: false, f: NativeFn::Builtin(212) });
    v.push(NativeEntry { class: "Landroid/net/Uri;", name: "parse", sig: "(Ljava/lang/String;)Landroid/net/Uri;", instance: false, f: NativeFn::Builtin(217) });
    v.push(NativeEntry { class: "Landroid/net/Uri;", name: "buildUpon", sig: "()Landroid/net/Uri$Builder;", instance: true, f: NativeFn::Builtin(205) });
    v.push(NativeEntry { class: "Landroid/net/Uri;", name: "getHost", sig: "()Ljava/lang/String;", instance: true, f: NativeFn::Builtin(215) });
    v.push(NativeEntry { class: "Landroid/net/Uri;", name: "getPath", sig: "()Ljava/lang/String;", instance: true, f: NativeFn::Builtin(216) });
    v.push(NativeEntry { class: "Landroid/net/Uri;", name: "getEncodedPath", sig: "()Ljava/lang/String;", instance: true, f: NativeFn::Builtin(213) });
    v.push(NativeEntry { class: "Landroid/net/Uri;", name: "getEncodedQuery", sig: "()Ljava/lang/String;", instance: true, f: NativeFn::Builtin(214) });
    v.push(NativeEntry { class: "Landroid/net/Uri$Builder;", name: "appendQueryParameter", sig: "(Ljava/lang/String;Ljava/lang/String;)Landroid/net/Uri$Builder;", instance: true, f: NativeFn::Builtin(208) });
    v.push(NativeEntry { class: "Landroid/net/Uri$Builder;", name: "appendPath", sig: "(Ljava/lang/String;)Landroid/net/Uri$Builder;", instance: true, f: NativeFn::Builtin(207) });
    v.push(NativeEntry { class: "Landroid/net/Uri$Builder;", name: "appendEncodedPath", sig: "(Ljava/lang/String;)Landroid/net/Uri$Builder;", instance: true, f: NativeFn::Builtin(206) });
    v.push(NativeEntry { class: "Landroid/net/Uri$Builder;", name: "fragment", sig: "(Ljava/lang/String;)Landroid/net/Uri$Builder;", instance: true, f: NativeFn::Builtin(210) });
    v.push(NativeEntry { class: "Landroid/net/Uri$Builder;", name: "build", sig: "()Landroid/net/Uri;", instance: true, f: NativeFn::Builtin(209) });
    v.push(NativeEntry { class: "Landroid/net/Uri$Builder;", name: "toString", sig: "()Ljava/lang/String;", instance: true, f: NativeFn::Builtin(211) });
    v.push(NativeEntry { class: "Landroid/content/ComponentName;", name: "<init>", sig: "(Landroid/content/Context;Ljava/lang/String;)V", instance: true, f: NativeFn::Builtin(202) });
    v.push(NativeEntry { class: "Landroid/content/ContextWrapper;", name: "getApplicationInfo", sig: "()Landroid/content/pm/ApplicationInfo;", instance: true, f: NativeFn::Builtin(55) });
    v.push(NativeEntry { class: "Landroid/content/ContextWrapper;", name: "getSystemService", sig: "(Ljava/lang/String;)Ljava/lang/Object;", instance: true, f: NativeFn::Builtin(203) });
    v.push(NativeEntry { class: "Landroid/content/Intent;", name: "addFlags", sig: "(I)Landroid/content/Intent;", instance: true, f: NativeFn::Builtin(99) });
    v.push(NativeEntry { class: "Landroid/content/Intent;", name: "setComponent", sig: "(Landroid/content/ComponentName;)Landroid/content/Intent;", instance: true, f: NativeFn::Builtin(105) });
    proof {
        assert(entries_view(v@) =~= builtin_part_4());
    }
    v
}

/// Built-in native entries, part 5.
pub open spec fn builtin_part_5() -> Seq<(Seq<char>, Seq<char>, Seq<char>, bool, NativeFn)> {
    seq![
        ("Landroid/util/Log;"@, "e"@, "(Ljava/lang/String;Ljava/lang/String;)I"@, false, NativeFn::Builtin(204)),
        ("Landroid/util/Log;"@, "d"@, "(Ljava/lang/String;Ljava/lang/String;)I"@, false, NativeFn::Builtin(204)),
        ("Landroid/util/Log;"@, "d"@, "(Ljava/lang/String;Ljava/lang/String;Ljava/lang/Throwable;)I"@, false, NativeFn::Builtin(204)),
        ("Landroid/util/Log;"@, "wtf"@, "(Ljava/lang/String;Ljava/lang/String;)I"@, false, NativeFn::Builtin(204)),
        ("Landroid/util/Log;"@, "println"@, "(ILjava/lang/String;Ljava/lang/String;)I"@, false, NativeFn::Builtin(204)),
        ("Landroid/util/Base64InputStream;"@, "<init>"@, "(Ljava/io/InputStream;I)V"@, true, NativeFn::Builtin(202)),
        ("Landroid/util/JsonReader;"@, "<init>"@, "(Ljava/io/Reader;)V"@, true, NativeFn::Builtin(202)),
        ("Landroid/util/JsonReader;"@, "hasNext"@, "()Z"@, true, NativeFn::Builtin(107)),
        ("Landroid/util/JsonReader;"@, "nextString"@, "()Ljava/lang/String;"@, true, NativeFn::Builtin(203)),
        ("Landroid/util/JsonReader;"@, "nextName"@, "()Ljava/lang/String;"@, true, NativeFn::Builtin(203)),
        ("Landroid/util/JsonReader;"@, "peek"@, "()Landroid/util/JsonToken;"@, true, NativeFn::Builtin(203)),
        ("Landroid/util/JsonReader;"@, "nextDouble"@, "()D"@, true, NativeFn::Builtin(108)),
        ("Landroid/util/JsonReader;"@, "nextNull"@, "()V"@, true, NativeFn::Builtin(202)),
        ("Landroid/util/JsonReader;"@, "beginArray"@, "()V"@, true, NativeFn::Builtin(202)),
        ("Landroid/util/JsonReader;"@, "beginObject"@, "()V"@, true, NativeFn::Builtin(202)),
        ("Landroid/util/JsonReader;"@, "endArray"@, "()V"@, true, NativeFn::Builtin(202)),
        ("Landroid/util/JsonReader;"@, "endObject"@, "()V"@, true, NativeFn::Builtin(202)),
        ("Landroid/util/JsonReader;"@, "skipValue"@, "()V"@, true, NativeFn::Builtin(202)),
        ("Landroid/util/LruCache;"@, "<init>"@, "(I)V"@, true, NativeFn::Builtin(202)),
        ("Landroid/util/LruCache;"@, "get"@, "(Ljava/lang/Object;)Ljava/lang/Object;"@, true, NativeFn::Builtin(203)),
        ("Landroid/content/res/Resources;"@, "getSystem"@, "()Landroid/content/res/Resources;"@, false, NativeFn::Builtin(154)),
        ("Landroid/content/res/Resources;"@, "getDisplayMetrics"@, "()Landroid/util/DisplayMetrics;"@, true, NativeFn::Builtin(153)),
        ("Landroid/app/ActivityManager$MemoryInfo;"@, "<init>"@, "()V"@, true, NativeFn::Builtin(202)),
        ("Landroid/app/ActivityManager;"@, "getMemoryInfo"@, "(Landroid/app/ActivityManager$MemoryInfo;)V"@, true, NativeFn::Builtin(202)),
        ("Landroid/graphics/Typeface;"@, "createFromFile"@, "(Ljava/io/File;)Landroid/graphics/Typeface;"@, false, NativeFn::Builtin(199)),
        ("Landroid/graphics/ImageDecoder;"@, "createSource"@, "([B)Landroid/graphics/ImageDecoder$Source;"@, false, NativeFn::Builtin(74)),
        ("Landroid/graphics/ImageDecoder;"@, "setAllocator"@, "(I)V"@, true, NativeFn::Builtin(202)),
        ("Landroid/graphics/pdf/PdfRenderer;"@, "<init>"@, "(Landroid/os/ParcelFileDescriptor;)V"@, true, NativeFn::Builtin(202)),
        ("Landroid/graphics/pdf/PdfRenderer;"@, "getPageCount"@, "()I"@, true, NativeFn::Builtin(204)),
        ("Landroid/graphics/pdf/PdfRenderer;"@, "openPage"@, "(I)Landroid/graphics/pdf/PdfRenderer$Page;"@, true, NativeFn::Builtin(149)),
    ]
}

fn builtin_entries_5() -> (r: Vec<NativeEntry>)
    ensures
        entries_view(r@) == builtin_part_5(),
{
    let mut v: Vec<NativeEntry> = Vec::new();
    v.push(NativeEntry { class: "Landroid/util/Log;", name: "e", sig: "(Ljava/lang/String;Ljava/lang/String;)I", instance: false, f: NativeFn::Builtin(204) });
    v.push(NativeEntry { class: "Landroid/util/Log;", name: "d", sig: "(Ljava/lang/String;Ljava/lang/String;)I", instance: false, f: NativeFn::Builtin(204) });
    v.push(NativeEntry { class: "Landroid/util/Log;", name: "d", sig: "(Ljava/lang/String;Ljava/lang/String;Ljava/lang/Throwable;)I", instance: false, f: NativeFn::Builtin(204) });
    v.push(NativeEntry { class: "Landroid/util/Log;", name: "wtf", sig: "(Ljava/lang/String;Ljava/lang/String;)I", instance: false, f: NativeFn::Builtin(204) });
    v.push(NativeEntry { class: "Landroid/util/Log;", name: "println", sig: "(ILjava/lang/String;Ljava/lang/String;)I", instance: false, f: NativeFn::Builtin(204) });
    v.push(NativeEntry { class: "Landroid/util/Base64InputStream;", name: "<init>", sig: "(Ljava/io/InputStream;I)V", instance: true, f: NativeFn::Builtin(202) });
    v.push(NativeEntry { class: "Landroid/util/JsonReader;", name: "<init>", sig: "(Ljava/io/Reader;)V", instance: true, f: NativeFn::Builtin(202) });
    v.push(NativeEntry { class: "Landroid/util/JsonReader;", name: "hasNext", sig: "()Z", instance: true, f: NativeFn::Builtin(107) });
    v.push(NativeEntry { class: "Landroid/util/JsonReader;", name: "nextString", sig: "()Ljava/lang/String;", instance: true, f: NativeFn::Builtin(203) });
    v.push(NativeEntry { class: "Landroid/util/JsonReader;", name: "nextName", sig: "()Ljava/lang/String;", instance: true, f: NativeFn::Builtin(203) });
    v.push(NativeEntry { class: "Landroid/util/JsonReader;", name: "peek", sig: "()Landroid/util/JsonToken;", instance: true, f: NativeFn::Builtin(203) });
    v.push(NativeEntry { class: "Landroid/util/JsonReader;", name: "nextDouble", sig: "()D", instance: true, f: NativeFn::Builtin(108) });
    v.push(NativeEntry { class: "Landroid/util/JsonReader;", name: "nextNull", sig: "()V", instance: true, f: NativeFn::Builtin(202) });
    v.push(NativeEntry { class: "Landroid/util/JsonReader;", name: "beginArray", sig: "()V", instance: true, f: NativeFn::Builtin(202) });
    v.push(NativeEntry { class: "Landroid/util/JsonReader;", name: "beginObject", sig: "()V", instance: true, f: NativeFn::Builtin(202) });
    v.push(NativeEntry { class: "Landroid/util/JsonReader;", name: "endArray", sig: "()V", instance: true, f: NativeFn::Builtin(202) });
    v.push(NativeEntry { class: "Landroid/util/JsonReader;", name: "endObject", sig: "()V", instance: true, f: NativeFn::Builtin(202) });
    v.push(NativeEntry { class: "Landroid/util/JsonReader;", name: "skipValue", sig: "()V", instance: true, f: NativeFn::Builtin(202) });
    v.push(NativeEntry { class: "Landroid/util/LruCache;", name: "<init>", sig: "(I)V", instance: true, f: NativeFn::Builtin(202) });
    v.push(NativeEntry { class: "Landroid/util/LruCache;", name: "get", sig: "(Ljava/lang/Object;)Ljava/lang/Object;", instance: true, f: NativeFn::Builtin(203) });
    v.push(NativeEntry { class: "Landroid/content/res/Resources;", name: "getSystem", sig: "()Landroid/content/res/Resources;", instance: false, f: NativeFn::Builtin(154) });
    v.push(NativeEntry { class: "Landroid/content/res/Resources;", name: "getDisplayMetrics", sig: "()Landroid/util/DisplayMetrics;", instance: true, f: NativeFn::Builtin(153) });
    v.push(NativeEntry { class: "Landroid/app/ActivityManager$MemoryInfo;", name: "<init>", sig: "()V", instance: true, f: NativeFn::Builtin(202) });
    v.push(NativeEntry { class: "Landroid/app/ActivityManager;", name: "getMemoryInfo", sig: "(Landroid/app/ActivityManager$MemoryInfo;)V", instance: true, f: NativeFn::Builtin(202) });
    v.push(NativeEntry { class: "Landroid/graphics/Typeface;", name: "createFromFile", sig: "(Ljava/io/File;)Landroid/graphics/Typeface;", instance: false, f: NativeFn::Builtin(199) });
    v.push(NativeEntry { class: "Landroid/graphics/ImageDecoder;", name: "createSource", sig: "([B)Landroid/graphics/ImageDecoder$Source;", instance: false, f: NativeFn::Builtin(74) });
    v.push(NativeEntry { class: "Landroid/graphics/ImageDecoder;", name: "setAllocator", sig: "(I)V", instance: true, f: NativeFn::Builtin(202) });
    v.push(NativeEntry { class: "Landroid/graphics/pdf/PdfRenderer;", name: "<init>", sig: "(Landroid/os/ParcelFileDescriptor;)V", instance: true, f: NativeFn::Builtin(202) });
    v.push(NativeEntry { class: "Landroid/graphics/pdf/PdfRenderer;", name: "getPageCount", sig: "()I", instance: true, f: NativeFn::Builtin(204) });
    v.push(NativeEntry { class: "Landroid/graphics/pdf/PdfRenderer;", name: "openPage", sig: "(I)Landroid/graphics/pdf/PdfRenderer$Page;", instance: true, f: NativeFn::Builtin(149) });
    proof {
        assert(entries_view(v@) =~= builtin_part_5());
    }
    v
}

/// Built-in native entries, part 6.
pub open spec fn builtin_part_6() -> Seq<(Seq<char>, Seq<char>, Seq<char>, bool, NativeFn)> {
    seq![
        ("Landroid/graphics/pdf/PdfRenderer$Page;"@, "getWidth"@, "()I"@, true, NativeFn::Builtin(204)),
        ("Landroid/graphics/pdf/PdfRenderer$Page;"@, "getHeight"@, "()I"@, true, NativeFn::Builtin(204)),
        ("Landroid/icu/text/BreakIterator;"@, "getCharacterInstance"@, "()Landroid/icu/text/BreakIterator;"@, false, NativeFn::Builtin(20)),
        ("Landroid/icu/text/BreakIterator;"@, "getWordInstance"@, "()Landroid/icu/text/BreakIterator;"@, false, NativeFn::Builtin(20)),
        ("Landroid/icu/text/BreakIterator;"@, "first"@, "()I"@, true, NativeFn::Builtin(19)),
        ("Landroid/icu/text/BreakIterator;"@, "next"@, "()I"@, true, NativeFn::Builtin(21)),
        ("Landroid/icu/text/BreakIterator;"@, "getRuleStatus"@, "()I"@, true, NativeFn::Builtin(204)),
        ("Landroid/icu/text/BreakIterator;"@, "setText"@, "(Ljava/text/CharacterIterator;)V"@, true, NativeFn::Builtin(202)),
        ("Landroid/icu/text/Collator;"@, "getInstance"@, "()Landroid/icu/text/Collator;"@, false, NativeFn::Builtin(52)),
        ("Landroid/icu/text/RuleBasedCollator;"@, "setCaseLevel"@, "(Z)V"@, true, NativeFn::Builtin(202)),
        ("Landroid/icu/text/RuleBasedCollator;"@, "setDecomposition"@, "(I)V"@, true, NativeFn::Builtin(202)),
        ("Landroid/icu/text/RuleBasedCollator;"@, "setStrength"@, "(I)V"@, true, NativeFn::Builtin(202)),
        ("Landroid/icu/text/Normalizer2;"@, "getNFKCCasefoldInstance"@, "()Landroid/icu/text/Normalizer2;"@, false, NativeFn::Builtin(133)),
        ("Landroid/icu/text/Normalizer2;"@, "normalize"@, "(Ljava/lang/CharSequence;)Ljava/lang/String;"@, true, NativeFn::Builtin(134)),
        ("Landroid/icu/text/SearchIterator;"@, "first"@, "()I"@, true, NativeFn::Builtin(165)),
        ("Landroid/icu/text/SearchIterator;"@, "next"@, "()I"@, true, NativeFn::Builtin(165)),
        ("Landroid/icu/text/SearchIterator;"@, "getMatchedText"@, "()Ljava/lang/String;"@, true, NativeFn::Builtin(203)),
        ("Landroid/icu/text/SearchIterator;"@, "setOverlapping"@, "(Z)V"@, true, NativeFn::Builtin(202)),
        ("Landroid/icu/text/StringSearch;"@, "<init>"@, "(Ljava/lang/String;Ljava/text/CharacterIterator;Landroid/icu/text/RuleBasedCollator;)V"@, true, NativeFn::Builtin(202)),
        ("Landroid/icu/text/StringSearch;"@, "setPattern"@, "(Ljava/lang/String;)V"@, true, NativeFn::Builtin(202)),
        ("Landroid/icu/text/StringSearch;"@, "setTarget"@, "(Ljava/text/CharacterIterator;)V"@, true, NativeFn::Builtin(202)),
        ("Landroid/text/StaticLayout;"@, "<init>"@, "(Ljava/lang/CharSequence;Landroid/text/TextPaint;ILandroid/text/Layout$Alignment;FFZ)V"@, true, NativeFn::Builtin(202)),
        ("Landroid/text/StaticLayout$Builder;"@, "obtain"@, "(Ljava/lang/CharSequence;IILandroid/text/TextPaint;I)Landroid/text/StaticLayout$Builder;"@, false, NativeFn::Builtin(175)),
        ("Luy/kohesive/injekt/InjektKt;"@, "getInjekt"@, "()Luy/kohesive/injekt/api/InjektScope;"@, false, NativeFn::Builtin(77)),
        ("Luy/kohesive/injekt/api/InjektFactory;"@, "getInstance"@, "(Ljava/lang/reflect/Type;)Ljava/lang/Object;"@, true, NativeFn::Builtin(78)),
        ("Luy/kohesive/injekt/api/FullTypeReference;"@, "<init>"@, "()V"@, true, NativeFn::Builtin(76)),
        ("Luy/kohesive/injekt/api/FullTypeReference;"@, "getType"@, "()Ljava/lang/reflect/Type;"@, true, NativeFn::Builtin(75)),
        ("Ljava/io/ByteArrayInputStream;"@, "<init>"@, "([B)V"@, true, NativeFn::Builtin(5)),
        ("Ljava/io/ByteArrayInputStream;"@, "<init>"@, "([BII)V"@, true, NativeFn::Builtin(6)),
        ("Ljava/io/ByteArrayInputStream;"@, "read"@, "()I"@, true, NativeFn::Builtin(7)),
    ]
}

fn builtin_entries_6() -> (r: Vec<NativeEntry>)
    ensures
        entries_view(r@) == builtin_part_6(),
{
    let mut v: Vec<NativeEntry> = Vec::new();
    v.push(NativeEntry { class: "Landroid/graphics/pdf/PdfRenderer$Page;", name: "getWidth", sig: "()I", instance: true, f: NativeFn::Builtin(204) });
    v.push(NativeEntry { class: "Landroid/graphics/pdf/PdfRenderer$Page;", name: "getHeight", sig: "()I", instance: true, f: NativeFn::Builtin(204) });
    v.push(NativeEntry { class: "Landroid/icu/text/BreakIterator;", name: "getCharacterInstance", sig: "()Landroid/icu/text/BreakIterator;", instance: false, f: NativeFn::Builtin(20) });
    v.push(NativeEntry { class: "Landroid/icu/text/BreakIterator;", name: "getWordInstance", sig: "()Landroid/icu/text/BreakIterator;", instance: false, f: NativeFn::Builtin(20) });
    v.push(NativeEntry { class: "Landroid/icu/text/BreakIterator;", name: "first", sig: "()I", instance: true, f: NativeFn::Builtin(19) });
    v.push(NativeEntry { class: "Landroid/icu/text/BreakIterator;", name: "next", sig: "()I", instance: true, f: NativeFn::Builtin(21) });
    v.push(NativeEntry { class: "Landroid/icu/text/BreakIterator;", name: "getRuleStatus", sig: "()I", instance: true, f: NativeFn::Builtin(204) });
    v.push(NativeEntry { class: "Landroid/icu/text/BreakIterator;", name: "setText", sig: "(Ljava/text/CharacterIterator;)V", instance: true, f: NativeFn::Builtin(202) });
    v.push(NativeEntry { class: "Landroid/icu/text/Collator;", name: "getInstance", sig: "()Landroid/icu/text/Collator;", instance: false, f: NativeFn::Builtin(52) });
    v.push(NativeEntry { class: "Landroid/icu/text/RuleBasedCollator;", name: "setCaseLevel", sig: "(Z)V", instance: true, f: NativeFn::Builtin(202) });
    v.push(NativeEntry { class: "Landroid/icu/text/RuleBasedCollator;", name: "setDecomposition", sig: "(I)V", instance: true, f: NativeFn::Builtin(202) });
    v.push(NativeEntry { class: "Landroid/icu/text/RuleBasedCollator;", name: "setStrength", sig: "(I)V", instance: true, f: NativeFn::Builtin(202) });
    v.push(NativeEntry { class: "Landroid/icu/text/Normalizer2;", name: "getNFKCCasefoldInstance", sig: "()Landroid/icu/text/Normalizer2;", instance: false, f: NativeFn::Builtin(133) });
    v.push(NativeEntry { class: "Landroid/icu/text/Normalizer2;", name: "normalize", sig: "(Ljava/lang/CharSequence;)Ljava/lang/String;", instance: true, f: NativeFn::Builtin(134) });
    v.push(NativeEntry { class: "Landroid/icu/text/SearchIterator;", name: "first", sig: "()I", instance: true, f: NativeFn::Builtin(165) });
    v.push(NativeEntry { class: "Landroid/icu/text/SearchIterator;", name: "next", sig: "()I", instance: true, f: NativeFn::Builtin(165) });
    v.push(NativeEntry { class: "Landroid/icu/text/SearchIterator;", name: "getMatchedText", sig: "()Ljava/lang/String;", instance: true, f: NativeFn::Builtin(203) });
    v.push(NativeEntry { class: "Landroid/icu/text/SearchIterator;", name: "setOverlapping", sig: "(Z)V", instance: true, f: NativeFn::Builtin(202) });
    v.push(NativeEntry { class: "Landroid/icu/text/StringSearch;", name: "<init>", sig: "(Ljava/lang/String;Ljava/text/CharacterIterator;Landroid/icu/text/RuleBasedCollator;)V", instance: true, f: NativeFn::Builtin(202) });
    v.push(NativeEntry { class: "Landroid/icu/text/StringSearch;", name: "setPattern", sig: "(Ljava/lang/String;)V", instance: true, f: NativeFn::Builtin(202) });
    v.push(NativeEntry { class: "Landroid/icu/text/StringSearch;", name: "setTarget", sig: "(Ljava/text/CharacterIterator;)V", instance: true, f: NativeFn::Builtin(202) });
    v.push(NativeEntry { class: "Landroid/text/StaticLayout;", name: "<init>", sig: "(Ljava/lang/CharSequence;Landroid/text/TextPaint;ILandroid/text/Layout$Alignment;FFZ)V", instance: true, f: NativeFn::Builtin(202) });
    v.push(NativeEntry { class: "Landroid/text/StaticLayout$Builder;", name: "obtain", sig: "(Ljava/lang/CharSequence;IILandroid/text/TextPaint;I)Landroid/text/StaticLayout$Builder;", instance: false, f: NativeFn::Builtin(175) });
    v.push(NativeEntry { class: "Luy/kohesive/injekt/InjektKt;", name: "getInjekt", sig: "()Luy/kohesive/injekt/api/InjektScope;", instance: false, f: NativeFn::Builtin(77) });
    v.push(NativeEntry { class: "Luy/kohesive/injekt/api/InjektFactory;", name: "getInstance", sig: "(Ljava/lang/reflect/Type;)Ljava/lang/Object;", instance: true, f: NativeFn::Builtin(78) });
    v.push(NativeEntry { class: "Luy/kohesive/injekt/api/FullTypeReference;", name: "<init>", sig: "()V", instance: true, f: NativeFn::Builtin(76) });
    v.push(NativeEntry { class: "Luy/kohesive/injekt/api/FullTypeReference;", name: "getType", sig: "()Ljava/lang/reflect/Type;", instance: true, f: NativeFn::Builtin(75) });
    v.push(NativeEntry { class: "Ljava/io/ByteArrayInputStream;", name: "<init>", sig: "([B)V", instance: true, f: NativeFn::Builtin(5) });
    v.push(NativeEntry { class: "Ljava/io/ByteArrayInputStream;", name: "<init>", sig: "([BII)V", instance: true, f: NativeFn::Builtin(6) });
    v.push(NativeEntry { class: "Ljava/io/ByteArrayInputStream;", name: "read", sig: "()I", instance: true, f: NativeFn::Builtin(7) });
    proof {
        assert(entries_view(v@) =~= builtin_part_6());
    }
    v
}

/// Built-in native entries, part 7.
pub open spec fn builtin_part_7() -> Seq<(Seq<char>, Seq<char>, Seq<char>, bool, NativeFn)> {
    seq![
        ("Ljava/io/ByteArrayInputStream;"@, "read"@, "([BII)I"@, true, NativeFn::Builtin(8)),
        ("Ljava/io/ByteArrayInputStream;"@, "available"@, "()I"@, true, NativeFn::Builtin(3)),
        ("Ljava/io/ByteArrayInputStream;"@, "close"@, "()V"@, true, NativeFn::Builtin(4)),
        ("Ljava/io/ByteArrayInputStream;"@, "<init>"@, "([B)V"@, true, NativeFn::Builtin(5)),
        ("Ljava/io/ByteArrayInputStream;"@, "<init>"@, "([BII)V"@, true, NativeFn::Builtin(6)),
        ("Ljava/io/ByteArrayInputStream;"@, "read"@, "()I"@, true, NativeFn::Builtin(7)),
        ("Ljava/io/ByteArrayInputStream;"@, "read"@, "([BII)I"@, true, NativeFn::Builtin(8)),
        ("Ljava/io/ByteArrayInputStream;"@, "available"@, "()I"@, true, NativeFn::Builtin(3)),
        ("Ljava/io/ByteArrayInputStream;"@, "close"@, "()V"@, true, NativeFn::Builtin(4)),
        ("Ljava/io/ByteArrayOutputStream;"@, "<init>"@, "()V"@, true, NativeFn::Builtin(22)),
        ("Ljava/io/ByteArrayOutputStream;"@, "write"@, "(I)V"@, true, NativeFn::Builtin(144)),
        ("Ljava/io/ByteArrayOutputStream;"@, "write"@, "([BII)V"@, true, NativeFn::Builtin(146)),
        ("Ljava/io/ByteArrayOutputStream;"@, "toByteArray"@, "()[B"@, true, NativeFn::Builtin(23)),
        ("Ljava/util/zip/GZIPInputStream;"@, "<init>"@, "(Ljava/io/InputStream;)V"@, true, NativeFn::Builtin(72)),
        ("Ljava/io/OutputStream;"@, "write"@, "(I)V"@, true, NativeFn::Builtin(144)),
        ("Ljava/io/OutputStream;"@, "write"@, "([B)V"@, true, NativeFn::Builtin(145)),
        ("Ljava/io/OutputStream;"@, "write"@, "([BII)V"@, true, NativeFn::Builtin(146)),
        ("Ljava/io/OutputStream;"@, "flush"@, "()V"@, true, NativeFn::Builtin(4)),
        ("Ljava/io/OutputStream;"@, "close"@, "()V"@, true, NativeFn::Builtin(4)),
        ("Ljavax/crypto/Cipher;"@, "getInstance"@, "(Ljava/lang/String;)Ljavax/crypto/Cipher;"@, false, NativeFn::Builtin(48)),
        ("Ljavax/crypto/Cipher;"@, "init"@, "(ILjava/security/Key;Ljava/security/spec/AlgorithmParameterSpec;)V"@, true, NativeFn::Builtin(49)),
        ("Ljavax/crypto/Cipher;"@, "init"@, "(ILjava/security/Key;)V"@, true, NativeFn::Builtin(50)),
        ("Ljavax/crypto/Cipher;"@, "updateAAD"@, "([B)V"@, true, NativeFn::Builtin(51)),
        ("Ljavax/crypto/Cipher;"@, "doFinal"@, "([BII)[B"@, true, NativeFn::Builtin(46)),
        ("Ljavax/crypto/Cipher;"@, "doFinal"@, "([B)[B"@, true, NativeFn::Builtin(47)),
        ("Ljavax/crypto/spec/SecretKeySpec;"@, "<init>"@, "([BLjava/lang/String;)V"@, true, NativeFn::Builtin(168)),
        ("Ljavax/crypto/spec/GCMParameterSpec;"@, "<init>"@, "(I[B)V"@, true, NativeFn::Builtin(71)),
        ("Ljavax/crypto/spec/IvParameterSpec;"@, "<init>"@, "([B)V"@, true, NativeFn::Builtin(106)),
        ("Ljavax/crypto/spec/PBEKeySpec;"@, "<init>"@, "([C[BII)V"@, true, NativeFn::Builtin(148)),
        ("Ljavax/crypto/SecretKeyFactory;"@, "getInstance"@, "(Ljava/lang/String;)Ljavax/crypto/SecretKeyFactory;"@, false, NativeFn::Builtin(167)),
    ]
}

fn builtin_entries_7() -> (r: Vec<NativeEntry>)
    ensures
        entries_view(r@) == builtin_part_7(),
{
    let mut v: Vec<NativeEntry> = Vec::new();
    v.push(NativeEntry { class: "Ljava/io/ByteArrayInputStream;", name: "read", sig: "([BII)I", instance: true, f: NativeFn::Builtin(8) });
    v.push(NativeEntry { class: "Ljava/io/ByteArrayInputStream;", name: "available", sig: "()I", instance: true, f: NativeFn::Builtin(3) });
    v.push(NativeEntry { class: "Ljava/io/ByteArrayInputStream;", name: "close", sig: "()V", instance: true, f: NativeFn::Builtin(4) });
    v.push(NativeEntry { class: "Ljava/io/ByteArrayInputStream;", name: "<init>", sig: "([B)V", instance: true, f: NativeFn::Builtin(5) });
    v.push(NativeEntry { class: "Ljava/io/ByteArrayInputStream;", name: "<init>", sig: "([BII)V", instance: true, f: NativeFn::Builtin(6) });
    v.push(NativeEntry { class: "Ljava/io/ByteArrayInputStream;", name: "read", sig: "()I", instance: true, f: NativeFn::Builtin(7) });
    v.push(NativeEntry { class: "Ljava/io/ByteArrayInputStream;", name: "read", sig: "([BII)I", instance: true, f: NativeFn::Builtin(8) });
    v.push(NativeEntry { class: "Ljava/io/ByteArrayInputStream;", name: "available", sig: "()I", instance: true, f: NativeFn::Builtin(3) });
    v.push(NativeEntry { class: "Ljava/io/ByteArrayInputStream;", name: "close", sig: "()V", instance: true, f: NativeFn::Builtin(4) });
    v.push(NativeEntry { class: "Ljava/io/ByteArrayOutputStream;", name: "<init>", sig: "()V", instance: true, f: NativeFn::Builtin(22) });
    v.push(NativeEntry { class: "Ljava/io/ByteArrayOutputStream;", name: "write", sig: "(I)V", instance: true, f: NativeFn::Builtin(144) });
    v.push(NativeEntry { class: "Ljava/io/ByteArrayOutputStream;", name: "write", sig: "([BII)V", instance: true, f: NativeFn::Builtin(146) });
    v.push(NativeEntry { class: "Ljava/io/ByteArrayOutputStream;", name: "toByteArray", sig: "()[B", instance: true, f: NativeFn::Builtin(23) });
    v.push(NativeEntry { class: "Ljava/util/zip/GZIPInputStream;", name: "<init>", sig: "(Ljava/io/InputStream;)V", instance: true, f: NativeFn::Builtin(72) });
    v.push(NativeEntry { class: "Ljava/io/OutputStream;", name: "write", sig: "(I)V", instance: true, f: NativeFn::Builtin(144) });
    v.push(NativeEntry { class: "Ljava/io/OutputStream;", name: "write", sig: "([B)V", instance: true, f: NativeFn::Builtin(145) });
    v.push(NativeEntry { class: "Ljava/io/OutputStream;", name: "write", sig: "([BII)V", instance: true, f: NativeFn::Builtin(146) });
    v.push(NativeEntry { class: "Ljava/io/OutputStream;", name: "flush", sig: "()V", instance: true, f: NativeFn::Builtin(4) });
    v.push(NativeEntry { class: "Ljava/io/OutputStream;", name: "close", sig: "()V", instance: true, f: NativeFn::Builtin(4) });
    v.push(NativeEntry { class: "Ljavax/crypto/Cipher;", name: "getInstance", sig: "(Ljava/lang/String;)Ljavax/crypto/Cipher;", instance: false, f: NativeFn::Builtin(48) });
    v.push(NativeEntry { class: "Ljavax/crypto/Cipher;", name: "init", sig: "(ILjava/security/Key;Ljava/security/spec/AlgorithmParameterSpec;)V", instance: true, f: NativeFn::Builtin(49) });
    v.push(NativeEntry { class: "Ljavax/crypto/Cipher;", name: "init", sig: "(ILjava/security/Key;)V", instance: true, f: NativeFn::Builtin(50) });
    v.push(NativeEntry { class: "Ljavax/crypto/Cipher;", name: "updateAAD", sig: "([B)V", instance: true, f: NativeFn::Builtin(51) });
    v.push(NativeEntry { class: "Ljavax/crypto/Cipher;", name: "doFinal", sig: "([BII)[B", instance: true, f: NativeFn::Builtin(46) });
    v.push(NativeEntry { class: "Ljavax/crypto/Cipher;", name: "doFinal", sig: "([B)[B", instance: true, f: NativeFn::Builtin(47) });
    v.push(NativeEntry { class: "Ljavax/crypto/spec/SecretKeySpec;", name: "<init>", sig: "([BLjava/lang/String;)V", instance: true, f: NativeFn::Builtin(168) });
    v.push(NativeEntry { class: "Ljavax/crypto/spec/GCMParameterSpec;", name: "<init>", sig: "(I[B)V", instance: true, f: NativeFn::Builtin(71) });
    v.push(NativeEntry { class: "Ljavax/crypto/spec/IvParameterSpec;", name: "<init>", sig: "([B)V", instance: true, f: NativeFn::Builtin(106) });
    v.push(NativeEntry { class: "Ljavax/crypto/spec/PBEKeySpec;", name: "<init>", sig: "([C[BII)V", instance: true, f: NativeFn::Builtin(148) });
    v.push(NativeEntry { class: "Ljavax/crypto/SecretKeyFactory;", name: "getInstance", sig: "(Ljava/lang/String;)Ljavax/crypto/SecretKeyFactory;", instance: false, f: NativeFn::Builtin(167) });
    proof {
        assert(entries_view(v@) =~= builtin_part_7());
    }
    v
}

/// Built-in native entries, part 8.
pub open spec fn builtin_part_8() -> Seq<(Seq<char>, Seq<char>, Seq<char>, bool, NativeFn)> {
    seq![
        ("Ljavax/crypto/SecretKeyFactory;"@, "generateSecret"@, "(Ljava/security/spec/KeySpec;)Ljavax/crypto/SecretKey;"@, true, NativeFn::Builtin(166)),
        ("Ljavax/crypto/Mac;"@, "getInstance"@, "(Ljava/lang/String;)Ljavax/crypto/Mac;"@, false, NativeFn::Builtin(130)),
        ("Ljavax/crypto/Mac;"@, "init"@, "(Ljava/security/Key;)V"@, true, NativeFn::Builtin(131)),
        ("Ljavax/crypto/Mac;"@, "getAlgorithm"@, "()Ljava/lang/String;"@, true, NativeFn::Builtin(129)),
        ("Ljavax/crypto/Mac;"@, "doFinal"@, "([B)[B"@, true, NativeFn::Builtin(128)),
        ("Ljava/lang/Boolean;"@, "valueOf"@, "(Z)Ljava/lang/Boolean;"@, false, NativeFn::Builtin(18)),
        ("Ljava/lang/Boolean;"@, "booleanValue"@, "()Z"@, true, NativeFn::Builtin(11)),
        ("Ljava/lang/Boolean;"@, "equals"@, "(Ljava/lang/Object;)Z"@, true, NativeFn::Builtin(13)),
        ("Ljava/lang/Boolean;"@, "hashCode"@, "()I"@, true, NativeFn::Builtin(14)),
        ("Ljava/lang/Boolean;"@, "hashCode"@, "(Z)I"@, false, NativeFn::Builtin(14)),
        ("Ljava/lang/Boolean;"@, "toString"@, "()Ljava/lang/String;"@, true, NativeFn::Builtin(16)),
        ("Ljava/lang/Boolean;"@, "toString"@, "(Z)Ljava/lang/String;"@, false, NativeFn::Builtin(17)),
        ("Ljava/lang/Boolean;"@, "parseBoolean"@, "(Ljava/lang/String;)Z"@, false, NativeFn::Builtin(15)),
        ("Ljava/lang/Boolean;"@, "compareTo"@, "(Ljava/lang/Boolean;)I"@, true, NativeFn::Builtin(12)),
        ("Ljava/lang/Boolean;"@, "compareTo"@, "(Ljava/lang/Object;)I"@, true, NativeFn::Builtin(12)),
        ("Ljava/lang/Byte;"@, "valueOf"@, "(B)Ljava/lang/Byte;"@, false, NativeFn::Builtin(27)),
        ("Ljava/lang/Byte;"@, "parseByte"@, "(Ljava/lang/String;)B"@, false, NativeFn::Builtin(25)),
        ("Ljava/lang/Byte;"@, "parseByte"@, "(Ljava/lang/String;I)B"@, false, NativeFn::Builtin(25)),
        ("Ljava/lang/Byte;"@, "toString"@, "(B)Ljava/lang/String;"@, false, NativeFn::Builtin(26)),
        ("Ljava/lang/Byte;"@, "intValue"@, "()I"@, true, NativeFn::Builtin(86)),
        ("Ljava/lang/Byte;"@, "shortValue"@, "()S"@, true, NativeFn::Builtin(89)),
        ("Ljava/lang/Byte;"@, "byteValue"@, "()B"@, true, NativeFn::Builtin(80)),
        ("Ljava/lang/Byte;"@, "equals"@, "(Ljava/lang/Object;)Z"@, true, NativeFn::Builtin(83)),
        ("Ljava/lang/Byte;"@, "hashCode"@, "()I"@, true, NativeFn::Builtin(84)),
        ("Ljava/lang/Byte;"@, "toString"@, "()Ljava/lang/String;"@, true, NativeFn::Builtin(26)),
        ("Ljava/lang/Byte;"@, "compareTo"@, "(Ljava/lang/Byte;)I"@, true, NativeFn::Builtin(24)),
        ("Ljava/lang/Byte;"@, "compareTo"@, "(Ljava/lang/Object;)I"@, true, NativeFn::Builtin(24)),
        ("Ljava/lang/Character;"@, "valueOf"@, "(C)Ljava/lang/Character;"@, false, NativeFn::Builtin(45)),
        ("Ljava/lang/Character;"@, "charValue"@, "()C"@, true, NativeFn::Builtin(28)),
        ("Ljava/lang/Character;"@, "equals"@, "(Ljava/lang/Object;)Z"@, true, NativeFn::Builtin(30)),
    ]
}

fn builtin_entries_8() -> (r: Vec<NativeEntry>)
    ensures
        entries_view(r@) == builtin_part_8(),
{
    let mut v: Vec<NativeEntry> = Vec::new();
    v.push(NativeEntry { class: "Ljavax/crypto/SecretKeyFactory;", name: "generateSecret", sig: "(Ljava/security/spec/KeySpec;)Ljavax/crypto/SecretKey;", instance: true, f: NativeFn::Builtin(166) });
    v.push(NativeEntry { class: "Ljavax/crypto/Mac;", name: "getInstance", sig: "(Ljava/lang/String;)Ljavax/crypto/Mac;", instance: false, f: NativeFn::Builtin(130) });
    v.push(NativeEntry { class: "Ljavax/crypto/Mac;", name: "init", sig: "(Ljava/security/Key;)V", instance: true, f: NativeFn::Builtin(131) });
    v.push(NativeEntry { class: "Ljavax/crypto/Mac;", name: "getAlgorithm", sig: "()Ljava/lang/String;", instance: true, f: NativeFn::Builtin(129) });
    v.push(NativeEntry { class: "Ljavax/crypto/Mac;", name: "doFinal", sig: "([B)[B", instance: true, f: NativeFn::Builtin(128) });
    v.push(NativeEntry { class: "Ljava/lang/Boolean;", name: "valueOf", sig: "(Z)Ljava/lang/Boolean;", instance: false, f: NativeFn::Builtin(18) });
    v.push(NativeEntry { class: "Ljava/lang/Boolean;", name: "booleanValue", sig: "()Z", instance: true, f: NativeFn::Builtin(11) });
    v.push(NativeEntry { class: "Ljava/lang/Boolean;", name: "equals", sig: "(Ljava/lang/Object;)Z", instance: true, f: NativeFn::Builtin(13) });
    v.push(NativeEntry { class: "Ljava/lang/Boolean;", name: "hashCode", sig: "()I", instance: true, f: NativeFn::Builtin(14) });
    v.push(NativeEntry { class: "Ljava/lang/Boolean;", name: "hashCode", sig: "(Z)I", instance: false, f: NativeFn::Builtin(14) });
    v.push(NativeEntry { class: "Ljava/lang/Boolean;", name: "toString", sig: "()Ljava/lang/String;", instance: true, f: NativeFn::Builtin(16) });
    v.push(NativeEntry { class: "Ljava/lang/Boolean;", name: "toString", sig: "(Z)Ljava/lang/String;", instance: false, f: NativeFn::Builtin(17) });
    v.push(NativeEntry { class: "Ljava/lang/Boolean;", name: "parseBoolean", sig: "(Ljava/lang/String;)Z", instance: false, f: NativeFn::Builtin(15) });
    v.push(NativeEntry { class: "Ljava/lang/Boolean;", name: "compareTo", sig: "(Ljava/lang/Boolean;)I", instance: true, f: NativeFn::Builtin(12) });
    v.push(NativeEntry { class: "Ljava/lang/Boolean;", name: "compareTo", sig: "(Ljava/lang/Object;)I", instance: true, f: NativeFn::Builtin(12) });
    v.push(NativeEntry { class: "Ljava/lang/Byte;", name: "valueOf", sig: "(B)Ljava/lang/Byte;", instance: false, f: NativeFn::Builtin(27) });
    v.push(NativeEntry { class: "Ljava/lang/Byte;", name: "parseByte", sig: "(Ljava/lang/String;)B", instance: false, f: NativeFn::Builtin(25) });
    v.push(NativeEntry { class: "Ljava/lang/Byte;", name: "parseByte", sig: "(Ljava/lang/String;I)B", instance: false, f: NativeFn::Builtin(25) });
    v.push(NativeEntry { class: "Ljava/lang/Byte;", name: "toString", sig: "(B)Ljava/lang/String;", instance: false, f: NativeFn::Builtin(26) });
    v.push(NativeEntry { class: "Ljava/lang/Byte;", name: "intValue", sig: "()I", instance: true, f: NativeFn::Builtin(86) });
    v.push(NativeEntry { class: "Ljava/lang/Byte;", name: "shortValue", sig: "()S", instance: true, f: NativeFn::Builtin(89) });
    v.push(NativeEntry { class: "Ljava/lang/Byte;", name: "byteValue", sig: "()B", instance: true, f: NativeFn::Builtin(80) });
    v.push(NativeEntry { class: "Ljava/lang/Byte;", name: "equals", sig: "(Ljava/lang/Object;)Z", instance: true, f: NativeFn::Builtin(83) });
    v.push(NativeEntry { class: "Ljava/lang/Byte;", name: "hashCode", sig: "()I", instance: true, f: NativeFn::Builtin(84) });
    v.push(NativeEntry { class: "Ljava/lang/Byte;", name: "toString", sig: "()Ljava/lang/String;", instance: true, f: NativeFn::Builtin(26) });
    v.push(NativeEntry { class: "Ljava/lang/Byte;", name: "compareTo", sig: "(Ljava/lang/Byte;)I", instance: true, f: NativeFn::Builtin(24) });
    v.push(NativeEntry { class: "Ljava/lang/Byte;", name: "compareTo", sig: "(Ljava/lang/Object;)I", instance: true, f: NativeFn::Builtin(24) });
    v.push(NativeEntry { class: "Ljava/lang/Character;", name: "valueOf", sig: "(C)Ljava/lang/Character;", instance: false, f: NativeFn::Builtin(45) });
    v.push(NativeEntry { class: "Ljava/lang/Character;", name: "charValue", sig: "()C", instance: true, f: NativeFn::Builtin(28) });
    v.push(NativeEntry { class: "Ljava/lang/Character;", name: "equals", sig: "(Ljava/lang/Object;)Z", instance: true, f: NativeFn::Builtin(30) });
    proof {
        assert(entries_view(v@) =~= builtin_part_8());
    }
    v
}

/// Built-in native entries, part 9.
pub open spec fn builtin_part_9() -> Seq<(Seq<char>, Seq<char>, Seq<char>, bool, NativeFn)> {
    seq![
        ("Ljava/lang/Character;"@, "hashCode"@, "()I"@, true, NativeFn::Builtin(32)),
        ("Ljava/lang/Character;"@, "toString"@, "()Ljava/lang/String;"@, true, NativeFn::Builtin(42)),
        ("Ljava/lang/Character;"@, "toString"@, "(C)Ljava/lang/String;"@, false, NativeFn::Builtin(43)),
        ("Ljava/lang/Character;"@, "compareTo"@, "(Ljava/lang/Character;)I"@, true, NativeFn::Builtin(29)),
        ("Ljava/lang/Character;"@, "compareTo"@, "(Ljava/lang/Object;)I"@, true, NativeFn::Builtin(29)),
        ("Ljava/lang/Character;"@, "isDigit"@, "(C)Z"@, false, NativeFn::Builtin(33)),
        ("Ljava/lang/Character;"@, "isLetter"@, "(C)Z"@, false, NativeFn::Builtin(35)),
        ("Ljava/lang/Character;"@, "isLetterOrDigit"@, "(C)Z"@, false, NativeFn::Builtin(36)),
        ("Ljava/lang/Character;"@, "isWhitespace"@, "(C)Z"@, false, NativeFn::Builtin(40)),
        ("Ljava/lang/Character;"@, "isUpperCase"@, "(C)Z"@, false, NativeFn::Builtin(39)),
        ("Ljava/lang/Character;"@, "isLowerCase"@, "(C)Z"@, false, NativeFn::Builtin(38)),
        ("Ljava/lang/Character;"@, "toUpperCase"@, "(C)C"@, false, NativeFn::Builtin(44)),
        ("Ljava/lang/Character;"@, "toLowerCase"@, "(C)C"@, false, NativeFn::Builtin(41)),
        ("Ljava/lang/Character;"@, "isHighSurrogate"@, "(C)Z"@, false, NativeFn::Builtin(34)),
        ("Ljava/lang/Character;"@, "isLowSurrogate"@, "(C)Z"@, false, NativeFn::Builtin(37)),
        ("Ljava/lang/Character;"@, "getNumericValue"@, "(C)I"@, false, NativeFn::Builtin(31)),
        ("Ljava/lang/Enum;"@, "<init>"@, "(Ljava/lang/String;I)V"@, true, NativeFn::Builtin(59)),
        ("Ljava/lang/Enum;"@, "name"@, "()Ljava/lang/String;"@, true, NativeFn::Builtin(60)),
        ("Ljava/lang/Enum;"@, "ordinal"@, "()I"@, true, NativeFn::Builtin(61)),
        ("Ljava/lang/Enum;"@, "toString"@, "()Ljava/lang/String;"@, true, NativeFn::Builtin(62)),
        ("Ljava/lang/Enum;"@, "compareTo"@, "(Ljava/lang/Enum;)I"@, true, NativeFn::Builtin(58)),
        ("Ljava/lang/Enum;"@, "compareTo"@, "(Ljava/lang/Object;)I"@, true, NativeFn::Builtin(58)),
        ("Ljava/lang/Integer;"@, "hashCode"@, "(I)I"@, false, NativeFn::Builtin(84)),
        ("Ljava/lang/Integer;"@, "valueOf"@, "(I)Ljava/lang/Integer;"@, false, NativeFn::Builtin(97)),
        ("Ljava/lang/Integer;"@, "valueOf"@, "(Ljava/lang/String;)Ljava/lang/Integer;"@, false, NativeFn::Builtin(98)),
        ("Ljava/lang/Integer;"@, "parseInt"@, "(Ljava/lang/String;)I"@, false, NativeFn::Builtin(88)),
        ("Ljava/lang/Integer;"@, "parseInt"@, "(Ljava/lang/String;I)I"@, false, NativeFn::Builtin(88)),
        ("Ljava/lang/Integer;"@, "toString"@, "(I)Ljava/lang/String;"@, false, NativeFn::Builtin(96)),
        ("Ljava/lang/Integer;"@, "toString"@, "(II)Ljava/lang/String;"@, false, NativeFn::Builtin(95)),
        ("Ljava/lang/Integer;"@, "toHexString"@, "(I)Ljava/lang/String;"@, false, NativeFn::Builtin(92)),
    ]
}

fn builtin_entries_9() -> (r: Vec<NativeEntry>)
    ensures
        entries_view(r@) == builtin_part_9(),
{
    let mut v: Vec<NativeEntry> = Vec::new();
    v.push(NativeEntry { class: "Ljava/lang/Character;", name: "hashCode", sig: "()I", instance: true, f: NativeFn::Builtin(32) });
    v.push(NativeEntry { class: "Ljava/lang/Character;", name: "toString", sig: "()Ljava/lang/String;", instance: true, f: NativeFn::Builtin(42) });
    v.push(NativeEntry { class: "Ljava/lang/Character;", name: "toString", sig: "(C)Ljava/lang/String;", instance: false, f: NativeFn::Builtin(43) });
    v.push(NativeEntry { class: "Ljava/lang/Character;", name: "compareTo", sig: "(Ljava/lang/Character;)I", instance: true, f: NativeFn::Builtin(29) });
    v.push(NativeEntry { class: "Ljava/lang/Character;", name: "compareTo", sig: "(Ljava/lang/Object;)I", instance: true, f: NativeFn::Builtin(29) });
    v.push(NativeEntry { class: "Ljava/lang/Character;", name: "isDigit", sig: "(C)Z", instance: false, f: NativeFn::Builtin(33) });
    v.push(NativeEntry { class: "Ljava/lang/Character;", name: "isLetter", sig: "(C)Z", instance: false, f: NativeFn::Builtin(35) });
    v.push(NativeEntry { class: "Ljava/lang/Character;", name: "isLetterOrDigit", sig: "(C)Z", instance: false, f: NativeFn::Builtin(36) });
    v.push(NativeEntry { class: "Ljava/lang/Character;", name: "isWhitespace", sig: "(C)Z", instance: false, f: NativeFn::Builtin(40) });
    v.push(NativeEntry { class: "Ljava/lang/Character;", name: "isUpperCase", sig: "(C)Z", instance: false, f: NativeFn::Builtin(39) });
    v.push(NativeEntry { class: "Ljava/lang/Character;", name: "isLowerCase", sig: "(C)Z", instance: false, f: NativeFn::Builtin(38) });
    v.push(NativeEntry { class: "Ljava/lang/Character;", name: "toUpperCase", sig: "(C)C", instance: false, f: NativeFn::Builtin(44) });
    v.push(NativeEntry { class: "Ljava/lang/Character;", name: "toLowerCase", sig: "(C)C", instance: false, f: NativeFn::Builtin(41) });
    v.push(NativeEntry { class: "Ljava/lang/Character;", name: "isHighSurrogate", sig: "(C)Z", instance: false, f: NativeFn::Builtin(34) });
    v.push(NativeEntry { class: "Ljava/lang/Character;", name: "isLowSurrogate", sig: "(C)Z", instance: false, f: NativeFn::Builtin(37) });
    v.push(NativeEntry { class: "Ljava/lang/Character;", name: "getNumericValue", sig: "(C)I", instance: false, f: NativeFn::Builtin(31) });
    v.push(NativeEntry { class: "Ljava/lang/Enum;", name: "<init>", sig: "(Ljava/lang/String;I)V", instance: true, f: NativeFn::Builtin(59) });
    v.push(NativeEntry { class: "Ljava/lang/Enum;", name: "name", sig: "()Ljava/lang/String;", instance: true, f: NativeFn::Builtin(60) });
    v.push(NativeEntry { class: "Ljava/lang/Enum;", name: "ordinal", sig: "()I", instance: true, f: NativeFn::Builtin(61) });
    v.push(NativeEntry { class: "Ljava/lang/Enum;", name: "toString", sig: "()Ljava/lang/String;", instance: true, f: NativeFn::Builtin(62) });
    v.push(NativeEntry { class: "Ljava/lang/Enum;", name: "compareTo", sig: "(Ljava/lang/Enum;)I", instance: true, f: NativeFn::Builtin(58) });
    v.push(NativeEntry { class: "Ljava/lang/Enum;", name: "compareTo", sig: "(Ljava/lang/Object;)I", instance: true, f: NativeFn::Builtin(58) });
    v.push(NativeEntry { class: "Ljava/lang/Integer;", name: "hashCode", sig: "(I)I", instance: false, f: NativeFn::Builtin(84) });
    v.push(NativeEntry { class: "Ljava/lang/Integer;", name: "valueOf", sig: "(I)Ljava/lang/Integer;", instance: false, f: NativeFn::Builtin(97) });
    v.push(NativeEntry { class: "Ljava/lang/Integer;", name: "valueOf", sig: "(Ljava/lang/String;)Ljava/lang/Integer;", instance: false, f: NativeFn::Builtin(98) });
    v.push(NativeEntry { class: "Ljava/lang/Integer;", name: "parseInt", sig: "(Ljava/lang/String;)I", instance: false, f: NativeFn::Builtin(88) });
    v.push(NativeEntry { class: "Ljava/lang/Integer;", name: "parseInt", sig: "(Ljava/lang/String;I)I", instance: false, f: NativeFn::Builtin(88) });
    v.push(NativeEntry { class: "Ljava/lang/Integer;", name: "toString", sig: "(I)Ljava/lang/String;", instance: false, f: NativeFn::Builtin(96) });
    v.push(NativeEntry { class: "Ljava/lang/Integer;", name: "toString", sig: "(II)Ljava/lang/String;", instance: false, f: NativeFn::Builtin(95) });
    v.push(NativeEntry { class: "Ljava/lang/Integer;", name: "toHexString", sig: "(I)Ljava/lang/String;", instance: false, f: NativeFn::Builtin(92) });
    proof {
        assert(entries_view(v@) =~= builtin_part_9());
    }
    v
}

/// Built-in native entries, part 10.
pub open spec fn builtin_part_10() -> Seq<(Seq<char>, Seq<char>, Seq<char>, bool, NativeFn)> {
    seq![
        ("Ljava/lang/Integer;"@, "toBinaryString"@, "(I)Ljava/lang/String;"@, false, NativeFn::Builtin(91)),
        ("Ljava/lang/Integer;"@, "toOctalString"@, "(I)Ljava/lang/String;"@, false, NativeFn::Builtin(93)),
        ("Ljava/lang/Integer;"@, "compare"@, "(II)I"@, false, NativeFn::Builtin(81)),
        ("Ljava/lang/Integer;"@, "bitCount"@, "(I)I"@, false, NativeFn::Builtin(79)),
        ("Ljava/lang/Integer;"@, "highestOneBit"@, "(I)I"@, false, NativeFn::Builtin(85)),
        ("Ljava/lang/Integer;"@, "signum"@, "(I)I"@, false, NativeFn::Builtin(90)),
        ("Ljava/lang/Integer;"@, "intValue"@, "()I"@, true, NativeFn::Builtin(86)),
        ("Ljava/lang/Integer;"@, "longValue"@, "()J"@, true, NativeFn::Builtin(87)),
        ("Ljava/lang/Integer;"@, "byteValue"@, "()B"@, true, NativeFn::Builtin(80)),
        ("Ljava/lang/Integer;"@, "shortValue"@, "()S"@, true, NativeFn::Builtin(89)),
        ("Ljava/lang/Integer;"@, "equals"@, "(Ljava/lang/Object;)Z"@, true, NativeFn::Builtin(83)),
        ("Ljava/lang/Integer;"@, "hashCode"@, "()I"@, true, NativeFn::Builtin(84)),
        ("Ljava/lang/Integer;"@, "toString"@, "()Ljava/lang/String;"@, true, NativeFn::Builtin(94)),
        ("Ljava/lang/Integer;"@, "compareTo"@, "(Ljava/lang/Integer;)I"@, true, NativeFn::Builtin(82)),
        ("Ljava/lang/Integer;"@, "compareTo"@, "(Ljava/lang/Object;)I"@, true, NativeFn::Builtin(82)),
        ("Ljava/lang/Long;"@, "valueOf"@, "(J)Ljava/lang/Long;"@, false, NativeFn::Builtin(125)),
        ("Ljava/lang/Long;"@, "valueOf"@, "(Ljava/lang/String;)Ljava/lang/Long;"@, false, NativeFn::Builtin(126)),
        ("Ljava/lang/Long;"@, "parseLong"@, "(Ljava/lang/String;)J"@, false, NativeFn::Builtin(118)),
        ("Ljava/lang/Long;"@, "parseLong"@, "(Ljava/lang/String;I)J"@, false, NativeFn::Builtin(118)),
        ("Ljava/lang/Long;"@, "toString"@, "(J)Ljava/lang/String;"@, false, NativeFn::Builtin(124)),
        ("Ljava/lang/Long;"@, "toString"@, "(JI)Ljava/lang/String;"@, false, NativeFn::Builtin(123)),
        ("Ljava/lang/Long;"@, "toHexString"@, "(J)Ljava/lang/String;"@, false, NativeFn::Builtin(121)),
        ("Ljava/lang/Long;"@, "compare"@, "(JJ)I"@, false, NativeFn::Builtin(112)),
        ("Ljava/lang/Long;"@, "bitCount"@, "(J)I"@, false, NativeFn::Builtin(110)),
        ("Ljava/lang/Long;"@, "signum"@, "(J)I"@, false, NativeFn::Builtin(120)),
        ("Ljava/lang/Long;"@, "intValue"@, "()I"@, true, NativeFn::Builtin(116)),
        ("Ljava/lang/Long;"@, "longValue"@, "()J"@, true, NativeFn::Builtin(117)),
        ("Ljava/lang/Long;"@, "byteValue"@, "()B"@, true, NativeFn::Builtin(111)),
        ("Ljava/lang/Long;"@, "shortValue"@, "()S"@, true, NativeFn::Builtin(119)),
        ("Ljava/lang/Long;"@, "equals"@, "(Ljava/lang/Object;)Z"@, true, NativeFn::Builtin(114)),
    ]
}

fn builtin_entries_10() -> (r: Vec<NativeEntry>)
    ensures
        entries_view(r@) == builtin_part_10(),
{
    let mut v: Vec<NativeEntry> = Vec::new();
    v.push(NativeEntry { class: "Ljava/lang/Integer;", name: "toBinaryString", sig: "(I)Ljava/lang/String;", instance: false, f: NativeFn::Builtin(91) });
    v.push(NativeEntry { class: "Ljava/lang/Integer;", name: "toOctalString", sig: "(I)Ljava/lang/String;", instance: false, f: NativeFn::Builtin(93) });
    v.push(NativeEntry { class: "Ljava/lang/Integer;", name: "compare", sig: "(II)I", instance: false, f: NativeFn::Builtin(81) });
    v.push(NativeEntry { class: "Ljava/lang/Integer;", name: "bitCount", sig: "(I)I", instance: false, f: NativeFn::Builtin(79) });
    v.push(NativeEntry { class: "Ljava/lang/Integer;", name: "highestOneBit", sig: "(I)I", instance: false, f: NativeFn::Builtin(85) });
    v.push(NativeEntry { class: "Ljava/lang/Integer;", name: "signum", sig: "(I)I", instance: false, f: NativeFn::Builtin(90) });
    v.push(NativeEntry { class: "Ljava/lang/Integer;", name: "intValue", sig: "()I", instance: true, f: NativeFn::Builtin(86) });
    v.push(NativeEntry { class: "Ljava/lang/Integer;", name: "longValue", sig: "()J", instance: true, f: NativeFn::Builtin(87) });
    v.push(NativeEntry { class: "Ljava/lang/Integer;", name: "byteValue", sig: "()B", instance: true, f: NativeFn::Builtin(80) });
    v.push(NativeEntry { class: "Ljava/lang/Integer;", name: "shortValue", sig: "()S", instance: true, f: NativeFn::Builtin(89) });
    v.push(NativeEntry { class: "Ljava/lang/Integer;", name: "equals", sig: "(Ljava/lang/Object;)Z", instance: true, f: NativeFn::Builtin(83) });
    v.push(NativeEntry { class: "Ljava/lang/Integer;", name: "hashCode", sig: "()I", instance: true, f: NativeFn::Builtin(84) });
    v.push(NativeEntry { class: "Ljava/lang/Integer;", name: "toString", sig: "()Ljava/lang/String;", instance: true, f: NativeFn::Builtin(94) });
    v.push(NativeEntry { class: "Ljava/lang/Integer;", name: "compareTo", sig: "(Ljava/lang/Integer;)I", instance: true, f: NativeFn::Builtin(82) });
    v.push(NativeEntry { class: "Ljava/lang/Integer;", name: "compareTo", sig: "(Ljava/lang/Object;)I", instance: true, f: NativeFn::Builtin(82) });
    v.push(NativeEntry { class: "Ljava/lang/Long;", name: "valueOf", sig: "(J)Ljava/lang/Long;", instance: false, f: NativeFn::Builtin(125) });
    v.push(NativeEntry { class: "Ljava/lang/Long;", name: "valueOf", sig: "(Ljava/lang/String;)Ljava/lang/Long;", instance: false, f: NativeFn::Builtin(126) });
    v.push(NativeEntry { class: "Ljava/lang/Long;", name: "parseLong", sig: "(Ljava/lang/String;)J", instance: false, f: NativeFn::Builtin(118) });
    v.push(NativeEntry { class: "Ljava/lang/Long;", name: "parseLong", sig: "(Ljava/lang/String;I)J", instance: false, f: NativeFn::Builtin(118) });
    v.push(NativeEntry { class: "Ljava/lang/Long;", name: "toString", sig: "(J)Ljava/lang/String;", instance: false, f: NativeFn::Builtin(124) });
    v.push(NativeEntry { class: "Ljava/lang/Long;", name: "toString", sig: "(JI)Ljava/lang/String;", instance: false, f: NativeFn::Builtin(123) });
    v.push(NativeEntry { class: "Ljava/lang/Long;", name: "toHexString", sig: "(J)Ljava/lang/String;", instance: false, f: NativeFn::Builtin(121) });
    v.push(NativeEntry { class: "Ljava/lang/Long;", name: "compare", sig: "(JJ)I", instance: false, f: NativeFn::Builtin(112) });
    v.push(NativeEntry { class: "Ljava/lang/Long;", name: "bitCount", sig: "(J)I", instance: false, f: NativeFn::Builtin(110) });
    v.push(NativeEntry { class: "Ljava/lang/Long;", name: "signum", sig: "(J)I", instance: false, f: NativeFn::Builtin(120) });
    v.push(NativeEntry { class: "Ljava/lang/Long;", name: "intValue", sig: "()I", instance: true, f: NativeFn::Builtin(116) });
    v.push(NativeEntry { class: "Ljava/lang/Long;", name: "longValue", sig: "()J", instance: true, f: NativeFn::Builtin(117) });
    v.push(NativeEntry { class: "Ljava/lang/Long;", name: "byteValue", sig: "()B", instance: true, f: NativeFn::Builtin(111) });
    v.push(NativeEntry { class: "Ljava/lang/Long;", name: "shortValue", sig: "()S", instance: true, f: NativeFn::Builtin(119) });
    v.push(NativeEntry { class: "Ljava/lang/Long;", name: "equals", sig: "(Ljava/lang/Object;)Z", instance: true, f: NativeFn::Builtin(114) });
    proof {
        assert(entries_view(v@) =~= builtin_part_10());
    }
    v
}

/// Built-in native entries, part 11.
pub open spec fn builtin_part_11() -> Seq<(Seq<char>, Seq<char>, Seq<char>, bool, NativeFn)> {
    seq![
        ("Ljava/lang/Long;"@, "hashCode"@, "()I"@, true, NativeFn::Builtin(115)),
        ("Ljava/lang/Long;"@, "toString"@, "()Ljava/lang/String;"@, true, NativeFn::Builtin(122)),
        ("Ljava/lang/Long;"@, "compareTo"@, "(Ljava/lang/Long;)I"@, true, NativeFn::Builtin(113)),
        ("Ljava/lang/Long;"@, "compareTo"@, "(Ljava/lang/Object;)I"@, true, NativeFn::Builtin(113)),
        ("Ljava/lang/Number;"@, "intValue"@, "()I"@, true, NativeFn::Builtin(136)),
        ("Ljava/lang/Number;"@, "longValue"@, "()J"@, true, NativeFn::Builtin(137)),
        ("Ljava/lang/Number;"@, "byteValue"@, "()B"@, true, NativeFn::Builtin(135)),
        ("Ljava/lang/Number;"@, "shortValue"@, "()S"@, true, NativeFn::Builtin(138)),
        ("Ljava/lang/Object;"@, "<init>"@, "()V"@, true, NativeFn::Builtin(142)),
        ("Ljava/lang/Object;"@, "hashCode"@, "()I"@, true, NativeFn::Builtin(141)),
        ("Ljava/lang/Object;"@, "equals"@, "(Ljava/lang/Object;)Z"@, true, NativeFn::Builtin(140)),
        ("Ljava/lang/Object;"@, "toString"@, "()Ljava/lang/String;"@, true, NativeFn::Builtin(143)),
        ("Ljava/lang/Object;"@, "clone"@, "()Ljava/lang/Object;"@, true, NativeFn::Builtin(139)),
        ("Ljava/lang/Short;"@, "valueOf"@, "(S)Ljava/lang/Short;"@, false, NativeFn::Builtin(172)),
        ("Ljava/lang/Short;"@, "parseShort"@, "(Ljava/lang/String;)S"@, false, NativeFn::Builtin(170)),
        ("Ljava/lang/Short;"@, "parseShort"@, "(Ljava/lang/String;I)S"@, false, NativeFn::Builtin(170)),
        ("Ljava/lang/Short;"@, "toString"@, "(S)Ljava/lang/String;"@, false, NativeFn::Builtin(171)),
        ("Ljava/lang/Short;"@, "intValue"@, "()I"@, true, NativeFn::Builtin(86)),
        ("Ljava/lang/Short;"@, "shortValue"@, "()S"@, true, NativeFn::Builtin(89)),
        ("Ljava/lang/Short;"@, "byteValue"@, "()B"@, true, NativeFn::Builtin(80)),
        ("Ljava/lang/Short;"@, "equals"@, "(Ljava/lang/Object;)Z"@, true, NativeFn::Builtin(83)),
        ("Ljava/lang/Short;"@, "hashCode"@, "()I"@, true, NativeFn::Builtin(84)),
        ("Ljava/lang/Short;"@, "toString"@, "()Ljava/lang/String;"@, true, NativeFn::Builtin(171)),
        ("Ljava/lang/Short;"@, "compareTo"@, "(Ljava/lang/Short;)I"@, true, NativeFn::Builtin(169)),
        ("Ljava/lang/Short;"@, "compareTo"@, "(Ljava/lang/Object;)I"@, true, NativeFn::Builtin(169)),
        ("Ljava/lang/ref/SoftReference;"@, "<init>"@, "(Ljava/lang/Object;)V"@, true, NativeFn::Builtin(174)),
        ("Ljava/lang/ref/SoftReference;"@, "get"@, "()Ljava/lang/Object;"@, true, NativeFn::Builtin(173)),
        ("Ljava/lang/StringBuilder;"@, "<init>"@, "()V"@, true, NativeFn::Builtin(162)),
        ("Ljava/lang/StringBuilder;"@, "<init>"@, "(I)V"@, true, NativeFn::Builtin(162)),
        ("Ljava/lang/StringBuilder;"@, "<init>"@, "(Ljava/lang/String;)V"@, true, NativeFn::Builtin(162)),
    ]
}

fn builtin_entries_11() -> (r: Vec<NativeEntry>)
    ensures
        entries_view(r@) == builtin_part_11(),
{
    let mut v: Vec<NativeEntry> = Vec::new();
    v.push(NativeEntry { class: "Ljava/lang/Long;", name: "hashCode", sig: "()I", instance: true, f: NativeFn::Builtin(115) });
    v.push(NativeEntry { class: "Ljava/lang/Long;", name: "toString", sig: "()Ljava/lang/String;", instance: true, f: NativeFn::Builtin(122) });
    v.push(NativeEntry { class: "Ljava/lang/Long;", name: "compareTo", sig: "(Ljava/lang/Long;)I", instance: true, f: NativeFn::Builtin(113) });
    v.push(NativeEntry { class: "Ljava/lang/Long;", name: "compareTo", sig: "(Ljava/lang/Object;)I", instance: true, f: NativeFn::Builtin(113) });
    v.push(NativeEntry { class: "Ljava/lang/Number;", name: "intValue", sig: "()I", instance: true, f: NativeFn::Builtin(136) });
    v.push(NativeEntry { class: "Ljava/lang/Number;", name: "longValue", sig: "()J", instance: true, f: NativeFn::Builtin(137) });
    v.push(NativeEntry { class: "Ljava/lang/Number;", name: "byteValue", sig: "()B", instance: true, f: NativeFn::Builtin(135) });
    v.push(NativeEntry { class: "Ljava/lang/Number;", name: "shortValue", sig: "()S", instance: true, f: NativeFn::Builtin(138) });
    v.push(NativeEntry { class: "Ljava/lang/Object;", name: "<init>", sig: "()V", instance: true, f: NativeFn::Builtin(142) });
    v.push(NativeEntry { class: "Ljava/lang/Object;", name: "hashCode", sig: "()I", instance: true, f: NativeFn::Builtin(141) });
    v.push(NativeEntry { class: "Ljava/lang/Object;", name: "equals", sig: "(Ljava/lang/Object;)Z", instance: true, f: NativeFn::Builtin(140) });
    v.push(NativeEntry { class: "Ljava/lang/Object;", name: "toString", sig: "()Ljava/lang/String;", instance: true, f: NativeFn::Builtin(143) });
    v.push(NativeEntry { class: "Ljava/lang/Object;", name: "clone", sig: "()Ljava/lang/Object;", instance: true, f: NativeFn::Builtin(139) });
    v.push(NativeEntry { class: "Ljava/lang/Short;", name: "valueOf", sig: "(S)Ljava/lang/Short;", instance: false, f: NativeFn::Builtin(172) });
    v.push(NativeEntry { class: "Ljava/lang/Short;", name: "parseShort", sig: "(Ljava/lang/String;)S", instance: false, f: NativeFn::Builtin(170) });
    v.push(NativeEntry { class: "Ljava/lang/Short;", name: "parseShort", sig: "(Ljava/lang/String;I)S", instance: false, f: NativeFn::Builtin(170) });
    v.push(NativeEntry { class: "Ljava/lang/Short;", name: "toString", sig: "(S)Ljava/lang/String;", instance: false, f: NativeFn::Builtin(171) });
    v.push(NativeEntry { class: "Ljava/lang/Short;", name: "intValue", sig: "()I", instance: true, f: NativeFn::Builtin(86) });
    v.push(NativeEntry { class: "Ljava/lang/Short;", name: "shortValue", sig: "()S", instance: true, f: NativeFn::Builtin(89) });
    v.push(NativeEntry { class: "Ljava/lang/Short;", name: "byteValue", sig: "()B", instance: true, f: NativeFn::Builtin(80) });
    v.push(NativeEntry { class: "Ljava/lang/Short;", name: "equals", sig: "(Ljava/lang/Object;)Z", instance: true, f: NativeFn::Builtin(83) });
    v.push(NativeEntry { class: "Ljava/lang/Short;", name: "hashCode", sig: "()I", instance: true, f: NativeFn::Builtin(84) });
    v.push(NativeEntry { class: "Ljava/lang/Short;", name: "toString", sig: "()Ljava/lang/String;", instance: true, f: NativeFn::Builtin(171) });
    v.push(NativeEntry { class: "Ljava/lang/Short;", name: "compareTo", sig: "(Ljava/lang/Short;)I", instance: true, f: NativeFn::Builtin(169) });
    v.push(NativeEntry { class: "Ljava/lang/Short;", name: "compareTo", sig: "(Ljava/lang/Object;)I", instance: true, f: NativeFn::Builtin(169) });
    v.push(NativeEntry { class: "Ljava/lang/ref/SoftReference;", name: "<init>", sig: "(Ljava/lang/Object;)V", instance: true, f: NativeFn::Builtin(174) });
    v.push(NativeEntry { class: "Ljava/lang/ref/SoftReference;", name: "get", sig: "()Ljava/lang/Object;", instance: true, f: NativeFn::Builtin(173) });
    v.push(NativeEntry { class: "Ljava/lang/StringBuilder;", name: "<init>", sig: "()V", instance: true, f: NativeFn::Builtin(162) });
    v.push(NativeEntry { class: "Ljava/lang/StringBuilder;", name: "<init>", sig: "(I)V", instance: true, f: NativeFn::Builtin(162) });
    v.push(NativeEntry { class: "Ljava/lang/StringBuilder;", name: "<init>", sig: "(Ljava/lang/String;)V", instance: true, f: NativeFn::Builtin(162) });
    proof {
        assert(entries_view(v@) =~= builtin_part_11());
    }
    v
}

/// Built-in native entries, part 12.
pub open spec fn builtin_part_12() -> Seq<(Seq<char>, Seq<char>, Seq<char>, bool, NativeFn)> {
    seq![
        ("Ljava/lang/StringBuilder;"@, "toString"@, "()Ljava/lang/String;"@, true, NativeFn::Builtin(164)),
        ("Ljava/lang/StringBuilder;"@, "append"@, "(Ljava/lang/String;)Ljava/lang/StringBuilder;"@, true, NativeFn::Builtin(160)),
        ("Ljava/lang/StringBuilder;"@, "append"@, "(I)Ljava/lang/StringBuilder;"@, true, NativeFn::Builtin(158)),
        ("Ljava/lang/StringBuilder;"@, "append"@, "(J)Ljava/lang/StringBuilder;"@, true, NativeFn::Builtin(159)),
        ("Ljava/lang/StringBuilder;"@, "append"@, "(Z)Ljava/lang/StringBuilder;"@, true, NativeFn::Builtin(155)),
        ("Ljava/lang/StringBuilder;"@, "append"@, "(C)Ljava/lang/StringBuilder;"@, true, NativeFn::Builtin(156)),
        ("Ljava/lang/StringBuilder;"@, "append"@, "(C)Ljava/lang/Appendable;"@, true, NativeFn::Builtin(156)),
        ("Ljava/lang/StringBuilder;"@, "length"@, "()I"@, true, NativeFn::Builtin(163)),
        ("Ljava/lang/StringBuffer;"@, "length"@, "()I"@, true, NativeFn::Builtin(163)),
        ("Ljava/lang/StringBuilder;"@, "capacity"@, "()I"@, true, NativeFn::Builtin(161)),
        ("Ljava/lang/StringBuilder;"@, "appendCodePoint"@, "(I)Ljava/lang/StringBuilder;"@, true, NativeFn::Builtin(157)),
        ("Ljava/lang/System;"@, "exit"@, "(I)V"@, false, NativeFn::Builtin(177)),
        ("Ljava/lang/System;"@, "gc"@, "()V"@, false, NativeFn::Builtin(142)),
        ("Ljava/lang/System;"@, "identityHashCode"@, "(Ljava/lang/Object;)I"@, false, NativeFn::Builtin(179)),
        ("Ljava/lang/System;"@, "getProperty"@, "(Ljava/lang/String;)Ljava/lang/String;"@, false, NativeFn::Builtin(178)),
        ("Ljava/lang/System;"@, "lineSeparator"@, "()Ljava/lang/String;"@, false, NativeFn::Builtin(180)),
        ("Ljava/lang/Thread;"@, "currentThread"@, "()Ljava/lang/Thread;"@, false, NativeFn::Builtin(181)),
        ("Ljava/lang/Thread;"@, "interrupt"@, "()V"@, true, NativeFn::Builtin(184)),
        ("Ljava/lang/Thread;"@, "interrupted"@, "()Z"@, false, NativeFn::Builtin(185)),
        ("Ljava/lang/Thread;"@, "setName"@, "(Ljava/lang/String;)V"@, true, NativeFn::Builtin(190)),
        ("Ljava/lang/Thread;"@, "setDaemon"@, "(Z)V"@, true, NativeFn::Builtin(189)),
        ("Ljava/lang/Thread;"@, "getName"@, "()Ljava/lang/String;"@, true, NativeFn::Builtin(183)),
        ("Ljava/lang/Thread;"@, "getId"@, "()J"@, true, NativeFn::Builtin(182)),
        ("Ljava/lang/Thread;"@, "isAlive"@, "()Z"@, true, NativeFn::Builtin(186)),
        ("Ljava/lang/Thread;"@, "isDaemon"@, "()Z"@, true, NativeFn::Builtin(187)),
        ("Ljava/lang/Thread;"@, "isInterrupted"@, "()Z"@, true, NativeFn::Builtin(188)),
        ("Ljava/lang/Thread;"@, "getStackTrace"@, "()[Ljava/lang/StackTraceElement;"@, true, NativeFn::Builtin(195)),
        ("Ljava/lang/Throwable;"@, "getMessage"@, "()Ljava/lang/String;"@, true, NativeFn::Builtin(194)),
        ("Ljava/lang/Throwable;"@, "getLocalizedMessage"@, "()Ljava/lang/String;"@, true, NativeFn::Builtin(193)),
        ("Ljava/lang/Throwable;"@, "getCause"@, "()Ljava/lang/Throwable;"@, true, NativeFn::Builtin(192)),
    ]
}

fn builtin_entries_12() -> (r: Vec<NativeEntry>)
    ensures
        entries_view(r@) == builtin_part_12(),
{
    let mut v: Vec<NativeEntry> = Vec::new();
    v.push(NativeEntry { class: "Ljava/lang/StringBuilder;", name: "toString", sig: "()Ljava/lang/String;", instance: true, f: NativeFn::Builtin(164) });
    v.push(NativeEntry { class: "Ljava/lang/StringBuilder;", name: "append", sig: "(Ljava/lang/String;)Ljava/lang/StringBuilder;", instance: true, f: NativeFn::Builtin(160) });
    v.push(NativeEntry { class: "Ljava/lang/StringBuilder;", name: "append", sig: "(I)Ljava/lang/StringBuilder;", instance: true, f: NativeFn::Builtin(158) });
    v.push(NativeEntry { class: "Ljava/lang/StringBuilder;", name: "append", sig: "(J)Ljava/lang/StringBuilder;", instance: true, f: NativeFn::Builtin(159) });
    v.push(NativeEntry { class: "Ljava/lang/StringBuilder;", name: "append", sig: "(Z)Ljava/lang/StringBuilder;", instance: true, f: NativeFn::Builtin(155) });
    v.push(NativeEntry { class: "Ljava/lang/StringBuilder;", name: "append", sig: "(C)Ljava/lang/StringBuilder;", instance: true, f: NativeFn::Builtin(156) });
    v.push(NativeEntry { class: "Ljava/lang/StringBuilder;", name: "append", sig: "(C)Ljava/lang/Appendable;", instance: true, f: NativeFn::Builtin(156) });
    v.push(NativeEntry { class: "Ljava/lang/StringBuilder;", name: "length", sig: "()I", instance: true, f: NativeFn::Builtin(163) });
    v.push(NativeEntry { class: "Ljava/lang/StringBuffer;", name: "length", sig: "()I", instance: true, f: NativeFn::Builtin(163) });
    v.push(NativeEntry { class: "Ljava/lang/StringBuilder;", name: "capacity", sig: "()I", instance: true, f: NativeFn::Builtin(161) });
    v.push(NativeEntry { class: "Ljava/lang/StringBuilder;", name: "appendCodePoint", sig: "(I)Ljava/lang/StringBuilder;", instance: true, f: NativeFn::Builtin(157) });
    v.push(NativeEntry { class: "Ljava/lang/System;", name: "exit", sig: "(I)V", instance: false, f: NativeFn::Builtin(177) });
    v.push(NativeEntry { class: "Ljava/lang/System;", name: "gc", sig: "()V", instance: false, f: NativeFn::Builtin(142) });
    v.push(NativeEntry { class: "Ljava/lang/System;", name: "identityHashCode", sig: "(Ljava/lang/Object;)I", instance: false, f: NativeFn::Builtin(179) });
    v.push(NativeEntry { class: "Ljava/lang/System;", name: "getProperty", sig: "(Ljava/lang/String;)Ljava/lang/String;", instance: false, f: NativeFn::Builtin(178) });
    v.push(NativeEntry { class: "Ljava/lang/System;", name: "lineSeparator", sig: "()Ljava/lang/String;", instance: false, f: NativeFn::Builtin(180) });
    v.push(NativeEntry { class: "Ljava/lang/Thread;", name: "currentThread", sig: "()Ljava/lang/Thread;", instance: false, f: NativeFn::Builtin(181) });
    v.push(NativeEntry { class: "Ljava/lang/Thread;", name: "interrupt", sig: "()V", instance: true, f: NativeFn::Builtin(184) });
    v.push(NativeEntry { class: "Ljava/lang/Thread;", name: "interrupted", sig: "()Z", instance: false, f: NativeFn::Builtin(185) });
    v.push(NativeEntry { class: "Ljava/lang/Thread;", name: "setName", sig: "(Ljava/lang/String;)V", instance: true, f: NativeFn::Builtin(190) });
    v.push(NativeEntry { class: "Ljava/lang/Thread;", name: "setDaemon", sig: "(Z)V", instance: true, f: NativeFn::Builtin(189) });
    v.push(NativeEntry { class: "Ljava/lang/Thread;", name: "getName", sig: "()Ljava/lang/String;", instance: true, f: NativeFn::Builtin(183) });
    v.push(NativeEntry { class: "Ljava/lang/Thread;", name: "getId", sig: "()J", instance: true, f: NativeFn::Builtin(182) });
    v.push(NativeEntry { class: "Ljava/lang/Thread;", name: "isAlive", sig: "()Z", instance: true, f: NativeFn::Builtin(186) });
    v.push(NativeEntry { class: "Ljava/lang/Thread;", name: "isDaemon", sig: "()Z", instance: true, f: NativeFn::Builtin(187) });
    v.push(NativeEntry { class: "Ljava/lang/Thread;", name: "isInterrupted", sig: "()Z", instance: true, f: NativeFn::Builtin(188) });
    v.push(NativeEntry { class: "Ljava/lang/Thread;", name: "getStackTrace", sig: "()[Ljava/lang/StackTraceElement;", instance: true, f: NativeFn::Builtin(195) });
    v.push(NativeEntry { class: "Ljava/lang/Throwable;", name: "getMessage", sig: "()Ljava/lang/String;", instance: true, f: NativeFn::Builtin(194) });
    v.push(NativeEntry { class: "Ljava/lang/Throwable;", name: "getLocalizedMessage", sig: "()Ljava/lang/String;", instance: true, f: NativeFn::Builtin(193) });
    v.push(NativeEntry { class: "Ljava/lang/Throwable;", name: "getCause", sig: "()Ljava/lang/Throwable;", instance: true, f: NativeFn::Builtin(192) });
    proof {
        assert(entries_view(v@) =~= builtin_part_12());
    }
    v
}

/// Built-in native entries, part 13.
pub open spec fn builtin_part_13() -> Seq<(Seq<char>, Seq<char>, Seq<char>, bool, NativeFn)> {
    seq![
        ("Ljava/lang/Throwable;"@, "initCause"@, "(Ljava/lang/Throwable;)Ljava/lang/Throwable;"@, true, NativeFn::Builtin(197)),
        ("Ljava/lang/Throwable;"@, "fillInStackTrace"@, "()Ljava/lang/Throwable;"@, true, NativeFn::Builtin(191)),
        ("Ljava/lang/Throwable;"@, "addSuppressed"@, "(Ljava/lang/Throwable;)V"@, true, NativeFn::Builtin(142)),
        ("Ljava/lang/Throwable;"@, "getSuppressed"@, "()[Ljava/lang/Throwable;"@, true, NativeFn::Builtin(196)),
        ("Ljava/lang/Throwable;"@, "getStackTrace"@, "()[Ljava/lang/StackTraceElement;"@, true, NativeFn::Builtin(195)),
        ("Ljava/io/File;"@, "mkdirs"@, "()Z"@, true, NativeFn::Io(0)),
        ("Ljava/io/File;"@, "exists"@, "()Z"@, true, NativeFn::Io(1)),
        ("Ljava/io/File;"@, "lastModified"@, "()J"@, true, NativeFn::Io(2)),
        ("Ljava/io/File;"@, "length"@, "()J"@, true, NativeFn::Io(3)),
        ("Ljava/io/File;"@, "isDirectory"@, "()Z"@, true, NativeFn::Io(4)),
        ("Ljava/io/File;"@, "isFile"@, "()Z"@, true, NativeFn::Io(5)),
        ("Ljava/io/File;"@, "createNewFile"@, "()Z"@, true, NativeFn::Io(6)),
        ("Ljava/io/File;"@, "delete"@, "()Z"@, true, NativeFn::Io(7)),
        ("Ljava/io/File;"@, "getAbsolutePath"@, "()Ljava/lang/String;"@, true, NativeFn::Io(8)),
        ("Ljava/io/File;"@, "getCanonicalPath"@, "()Ljava/lang/String;"@, true, NativeFn::Io(9)),
        ("Ljava/io/File;"@, "createTempFile"@, "(Ljava/lang/String;Ljava/lang/String;Ljava/io/File;)Ljava/io/File;"@, false, NativeFn::Io(10)),
        ("Ljava/io/File;"@, "renameTo"@, "(Ljava/io/File;)Z"@, true, NativeFn::Io(11)),
        ("Landroid/os/SystemClock;"@, "elapsedRealtime"@, "()J"@, false, NativeFn::Io(14)),
        ("Landroid/os/SystemClock;"@, "elapsedRealtime"@, "()J"@, false, NativeFn::Io(14)),
        ("Ljava/lang/System;"@, "currentTimeMillis"@, "()J"@, false, NativeFn::Io(12)),
        ("Ljava/lang/System;"@, "nanoTime"@, "()J"@, false, NativeFn::Io(13)),
    ]
}

fn builtin_entries_13() -> (r: Vec<NativeEntry>)
    ensures
        entries_view(r@) == builtin_part_13(),
{
    let mut v: Vec<NativeEntry> = Vec::new();
    v.push(NativeEntry { class: "Ljava/lang/Throwable;", name: "initCause", sig: "(Ljava/lang/Throwable;)Ljava/lang/Throwable;", instance: true, f: NativeFn::Builtin(197) });
    v.push(NativeEntry { class: "Ljava/lang/Throwable;", name: "fillInStackTrace", sig: "()Ljava/lang/Throwable;", instance: true, f: NativeFn::Builtin(191) });
    v.push(NativeEntry { class: "Ljava/lang/Throwable;", name: "addSuppressed", sig: "(Ljava/lang/Throwable;)V", instance: true, f: NativeFn::Builtin(142) });
    v.push(NativeEntry { class: "Ljava/lang/Throwable;", name: "getSuppressed", sig: "()[Ljava/lang/Throwable;", instance: true, f: NativeFn::Builtin(196) });
    v.push(NativeEntry { class: "Ljava/lang/Throwable;", name: "getStackTrace", sig: "()[Ljava/lang/StackTraceElement;", instance: true, f: NativeFn::Builtin(195) });
    v.push(NativeEntry { class: "Ljava/io/File;", name: "mkdirs", sig: "()Z", instance: true, f: NativeFn::Io(0) });
    v.push(NativeEntry { class: "Ljava/io/File;", name: "exists", sig: "()Z", instance: true, f: NativeFn::Io(1) });
    v.push(NativeEntry { class: "Ljava/io/File;", name: "lastModified", sig: "()J", instance: true, f: NativeFn::Io(2) });
    v.push(NativeEntry { class: "Ljava/io/File;", name: "length", sig: "()J", instance: true, f: NativeFn::Io(3) });
    v.push(NativeEntry { class: "Ljava/io/File;", name: "isDirectory", sig: "()Z", instance: true, f: NativeFn::Io(4) });
    v.push(NativeEntry { class: "Ljava/io/File;", name: "isFile", sig: "()Z", instance: true, f: NativeFn::Io(5) });
    v.push(NativeEntry { class: "Ljava/io/File;", name: "createNewFile", sig: "()Z", instance: true, f: NativeFn::Io(6) });
    v.push(NativeEntry { class: "Ljava/io/File;", name: "delete", sig: "()Z", instance: true, f: NativeFn::Io(7) });
    v.push(NativeEntry { class: "Ljava/io/File;", name: "getAbsolutePath", sig: "()Ljava/lang/String;", instance: true, f: NativeFn::Io(8) });
    v.push(NativeEntry { class: "Ljava/io/File;", name: "getCanonicalPath", sig: "()Ljava/lang/String;", instance: true, f: NativeFn::Io(9) });
    v.push(NativeEntry { class: "Ljava/io/File;", name: "createTempFile", sig: "(Ljava/lang/String;Ljava/lang/String;Ljava/io/File;)Ljava/io/File;", instance: false, f: NativeFn::Io(10) });
    v.push(NativeEntry { class: "Ljava/io/File;", name: "renameTo", sig: "(Ljava/io/File;)Z", instance: true, f: NativeFn::Io(11) });
    v.push(NativeEntry { class: "Landroid/os/SystemClock;", name: "elapsedRealtime", sig: "()J", instance: false, f: NativeFn::Io(14) });
    v.push(NativeEntry { class: "Landroid/os/SystemClock;", name: "elapsedRealtime", sig: "()J", instance: false, f: NativeFn::Io(14) });
    v.push(NativeEntry { class: "Ljava/lang/System;", name: "currentTimeMillis", sig: "()J", instance: false, f: NativeFn::Io(12) });
    v.push(NativeEntry { class: "Ljava/lang/System;", name: "nanoTime", sig: "()J", instance: false, f: NativeFn::Io(13) });
    proof {
        assert(entries_view(v@) =~= builtin_part_13());
    }
    v
}

/// Every built-in native entry, in registration order.
pub open spec fn builtin_table() -> Seq<(Seq<char>, Seq<char>, Seq<char>, bool, NativeFn)> {
    builtin_part_0() + builtin_part_1() + builtin_part_2() + builtin_part_3() + builtin_part_4() + builtin_part_5() + builtin_part_6() + builtin_part_7() + builtin_part_8() + builtin_part_9() + builtin_part_10() + builtin_part_11() + builtin_part_12() + builtin_part_13()
}

/// Every built-in native entry: class, name, signature, whether it takes a
/// receiver, and the built-in implementing it.
pub fn builtin_entries() -> (r: Vec<NativeEntry>)
    ensures
        entries_view(r@) == builtin_table(),
{
    let mut v = builtin_entries_0();
    let ghost acc = builtin_part_0();
    let mut w = builtin_entries_1();
    let ghost a = v@;
    let ghost b = w@;
    v.append(&mut w);
    proof {
        lemma_entries_view_add(a, b);
        acc = acc + builtin_part_1();
    }
    let mut w = builtin_entries_2();
    let ghost a = v@;
    let ghost b = w@;
    v.append(&mut w);
    proof {
        lemma_entries_view_add(a, b);
        acc = acc + builtin_part_2();
    }
    let mut w = builtin_entries_3();
    let ghost a = v@;
    let ghost b = w@;
    v.append(&mut w);
    proof {
        lemma_entries_view_add(a, b);
        acc = acc + builtin_part_3();
    }
    let mut w = builtin_entries_4();
    let ghost a = v@;
    let ghost b = w@;
    v.append(&mut w);
    proof {
        lemma_entries_view_add(a, b);
        acc = acc + builtin_part_4();
    }
    let mut w = builtin_entries_5();
    let ghost a = v@;
    let ghost b = w@;
    v.append(&mut w);
    proof {
        lemma_entries_view_add(a, b);
        acc = acc + builtin_part_5();
    }
    let mut w = builtin_entries_6();
    let ghost a = v@;
    let ghost b = w@;
    v.append(&mut w);
    proof {
        lemma_entries_view_add(a, b);
        acc = acc + builtin_part_6();
    }
    let mut w = builtin_entries_7();
    let ghost a = v@;
    let ghost b = w@;
    v.append(&mut w);
    proof {
        lemma_entries_view_add(a, b);
        acc = acc + builtin_part_7();
    }
    let mut w = builtin_entries_8();
    let ghost a = v@;
    let ghost b = w@;
    v.append(&mut w);
    proof {
        lemma_entries_view_add(a, b);
        acc = acc + builtin_part_8();
    }
    let mut w = builtin_entries_9();
    let ghost a = v@;
    let ghost b = w@;
    v.append(&mut w);
    proof {
        lemma_entries_view_add(a, b);
        acc = acc + builtin_part_9();
    }
    let mut w = builtin_entries_10();
    let ghost a = v@;
    let ghost b = w@;
    v.append(&mut w);
    proof {
        lemma_entries_view_add(a, b);
        acc = acc + builtin_part_10();
    }
    let mut w = builtin_entries_11();
    let ghost a = v@;
    let ghost b = w@;
    v.append(&mut w);
    proof {
        lemma_entries_view_add(a, b);
        acc = acc + builtin_part_11();
    }
    let mut w = builtin_entries_12();
    let ghost a = v@;
    let ghost b = w@;
    v.append(&mut w);
    proof {
        lemma_entries_view_add(a, b);
        acc = acc + builtin_part_12();
    }
    let mut w = builtin_entries_13();
    let ghost a = v@;
    let ghost b = w@;
    v.append(&mut w);
    proof {
        lemma_entries_view_add(a, b);
        acc = acc + builtin_part_13();
    }
    proof {
        assert(acc == builtin_table());
    }
    v
}

/// The name the embedder knows input/output native `id` by.
pub open spec fn io_name_spec(id: u32) -> Seq<char> {
    match id {
        0 => "file_mkdirs"@,
        1 => "file_exists"@,
        2 => "file_last_modified"@,
        3 => "file_length"@,
        4 => "file_is_directory"@,
        5 => "file_is_file"@,
        6 => "file_create_new_file"@,
        7 => "file_delete"@,
        8 => "file_get_absolute_path"@,
        9 => "file_get_canonical_path"@,
        10 => "file_create_temp_file"@,
        11 => "file_rename_to"@,
        12 => "sys_current_time_millis"@,
        13 => "sys_nano_time"@,
        14 => "elpased_realtime"@,
        _ => ""@,
    }
}

/// The name of input/output native `id`, by which the embedder performs it
/// (`""` for an unknown id).
pub fn io_name(id: u32) -> (r: &'static str)
    ensures
        r@ == io_name_spec(id),
{
    match id {
        0 => "file_mkdirs",
        1 => "file_exists",
        2 => "file_last_modified",
        3 => "file_length",
        4 => "file_is_directory",
        5 => "file_is_file",
        6 => "file_create_new_file",
        7 => "file_delete",
        8 => "file_get_absolute_path",
        9 => "file_get_canonical_path",
        10 => "file_create_temp_file",
        11 => "file_rename_to",
        12 => "sys_current_time_millis",
        13 => "sys_nano_time",
        14 => "elpased_realtime",
        _ => "",
    }
}

/// Runs built-in native `id` on `args`; arguments missing for it, or an
/// unknown id, are a VM failure.
pub fn call_builtin(vm: &mut Vm, id: u32, args: &[JValue]) -> (r: R)
    requires
        old(vm).wf(),
    ensures
        nat_post(old(vm), final(vm)),
{
    let n = args.len();
    match id {
        0 => if n >= 1 { crate::natives::android::activity_finish(vm, args) } else { Err(arity()) },
        1 => if n >= 1 { crate::natives::android::activity_get_intent(vm, args) } else { Err(arity()) },
        2 => if n >= 1 { crate::natives::android::activity_init(vm, args) } else { Err(arity()) },
        3 => if n >= 1 { crate::natives::stream::bais_available(vm, args) } else { Err(arity()) },
        4 => crate::natives::stream::bais_close(vm, args),
        5 => if n >= 2 { crate::natives::stream::bais_init(vm, args) } else { Err(arity()) },
        6 => if n >= 4 { crate::natives::stream::bais_init_range(vm, args) } else { Err(arity()) },
        7 => if n >= 1 { crate::natives::stream::bais_read(vm, args) } else { Err(arity()) },
        8 => if n >= 4 { crate::natives::stream::bais_read_buf(vm, args) } else { Err(arity()) },
        9 => if n >= 2 { crate::natives::encoding::base64_decode(vm, args) } else { Err(arity()) },
        10 => if n >= 2 { crate::natives::encoding::base64_encode_to_string(vm, args) } else { Err(arity()) },
        11 => if n >= 1 { crate::natives::lang::bool_boolean_value(vm, args) } else { Err(arity()) },
        12 => if n >= 2 { crate::natives::lang::bool_compare_to(vm, args) } else { Err(arity()) },
        13 => if n >= 2 { crate::natives::lang::bool_equals(vm, args) } else { Err(arity()) },
        14 => if n >= 1 { crate::natives::lang::bool_hash_code(vm, args) } else { Err(arity()) },
        15 => if n >= 1 { crate::natives::lang::bool_parse_boolean(vm, args) } else { Err(arity()) },
        16 => if n >= 1 { crate::natives::lang::bool_to_string(vm, args) } else { Err(arity()) },
        17 => if n >= 1 { crate::natives::lang::bool_to_string_static(vm, args) } else { Err(arity()) },
        18 => if n >= 1 { crate::natives::lang::bool_value_of(vm, args) } else { Err(arity()) },
        19 => crate::natives::android::break_iterator_first(vm, args),
        20 => crate::natives::android::break_iterator_instance(vm, args),
        21 => crate::natives::android::break_iterator_next(vm, args),
        22 => if n >= 1 { crate::natives::stream::byte_array_output_stream_init(vm, args) } else { Err(arity()) },
        23 => if n >= 1 { crate::natives::stream::byte_array_output_stream_to_bytes(vm, args) } else { Err(arity()) },
        24 => if n >= 2 { crate::natives::lang::byte_compare_to(vm, args) } else { Err(arity()) },
        25 => if n >= 1 { crate::natives::lang::byte_parse_byte(vm, args) } else { Err(arity()) },
        26 => if n >= 1 { crate::natives::lang::byte_to_string(vm, args) } else { Err(arity()) },
        27 => if n >= 1 { crate::natives::lang::byte_value_of(vm, args) } else { Err(arity()) },
        28 => if n >= 1 { crate::natives::character::char_char_value(vm, args) } else { Err(arity()) },
        29 => if n >= 2 { crate::natives::character::char_compare_to(vm, args) } else { Err(arity()) },
        30 => if n >= 2 { crate::natives::character::char_equals(vm, args) } else { Err(arity()) },
        31 => if n >= 1 { crate::natives::character::char_get_numeric_value(vm, args) } else { Err(arity()) },
        32 => if n >= 1 { crate::natives::character::char_hash_code(vm, args) } else { Err(arity()) },
        33 => if n >= 1 { crate::natives::character::char_is_digit(vm, args) } else { Err(arity()) },
        34 => if n >= 1 { crate::natives::character::char_is_high_surrogate(vm, args) } else { Err(arity()) },
        35 => if n >= 1 { crate::natives::character::char_is_letter(vm, args) } else { Err(arity()) },
        36 => if n >= 1 { crate::natives::character::char_is_letter_or_digit(vm, args) } else { Err(arity()) },
        37 => if n >= 1 { crate::natives::character::char_is_low_surrogate(vm, args) } else { Err(arity()) },
        38 => if n >= 1 { crate::natives::character::char_is_lower(vm, args) } else { Err(arity()) },
        39 => if n >= 1 { crate::natives::character::char_is_upper(vm, args) } else { Err(arity()) },
        40 => if n >= 1 { crate::natives::character::char_is_whitespace(vm, args) } else { Err(arity()) },
        41 => if n >= 1 { crate::natives::character::char_to_lower(vm, args) } else { Err(arity()) },
        42 => if n >= 1 { crate::natives::character::char_to_string(vm, args) } else { Err(arity()) },
        43 => if n >= 1 { crate::natives::character::char_to_string_static(vm, args) } else { Err(arity()) },
        44 => if n >= 1 { crate::natives::character::char_to_upper(vm, args) } else { Err(arity()) },
        45 => if n >= 1 { crate::natives::character::char_value_of(vm, args) } else { Err(arity()) },
        46 => if n >= 4 { crate::natives::crypto::cipher_do_final(vm, args) } else { Err(arity()) },
        47 => if n >= 2 { crate::natives::crypto::cipher_do_final_all(vm, args) } else { Err(arity()) },
        48 => if n >= 1 { crate::natives::crypto::cipher_get_instance(vm, args) } else { Err(arity()) },
        49 => if n >= 4 { crate::natives::crypto::cipher_init(vm, args) } else { Err(arity()) },
        50 => if n >= 3 { crate::natives::crypto::cipher_init_key(vm, args) } else { Err(arity()) },
        51 => if n >= 2 { crate::natives::crypto::cipher_update_aad(vm, args) } else { Err(arity()) },
        52 => crate::natives::android::collator_instance(vm, args),
        53 => crate::natives::android::console_message_level_values(vm, args),
        54 => crate::natives::android::context_get_package_name(vm, args),
        55 => crate::natives::android::context_wrapper_application_info(vm, args),
        56 => crate::natives::android::cookie_manager_instance(vm, args),
        57 => crate::natives::android::default_user_agent(vm, args),
        58 => if n >= 2 { crate::natives::base::enum_compare_to(vm, args) } else { Err(arity()) },
        59 => if n >= 3 { crate::natives::base::enum_init(vm, args) } else { Err(arity()) },
        60 => if n >= 1 { crate::natives::base::enum_name(vm, args) } else { Err(arity()) },
        61 => if n >= 1 { crate::natives::base::enum_ordinal(vm, args) } else { Err(arity()) },
        62 => if n >= 1 { crate::natives::base::enum_to_string(vm, args) } else { Err(arity()) },
        63 => if n >= 1 { crate::natives::file::file_get_name(vm, args) } else { Err(arity()) },
        64 => if n >= 1 { crate::natives::file::file_get_parent(vm, args) } else { Err(arity()) },
        65 => if n >= 1 { crate::natives::file::file_get_parent_file(vm, args) } else { Err(arity()) },
        66 => if n >= 1 { crate::natives::file::file_get_path(vm, args) } else { Err(arity()) },
        67 => if n >= 3 { crate::natives::file::file_init_parent_string(vm, args) } else { Err(arity()) },
        68 => if n >= 3 { crate::natives::file::file_init_parent_strings(vm, args) } else { Err(arity()) },
        69 => if n >= 2 { crate::natives::file::file_init_string(vm, args) } else { Err(arity()) },
        70 => if n >= 2 { crate::natives::file::fileskt_resolve(vm, args) } else { Err(arity()) },
        71 => if n >= 3 { crate::natives::crypto::gcm_parameter_spec_init(vm, args) } else { Err(arity()) },
        72 => if n >= 2 { crate::natives::stream::gzip_input_stream_init(vm, args) } else { Err(arity()) },
        73 => if n >= 1 { crate::natives::android::html_from_html(vm, args) } else { Err(arity()) },
        74 => crate::natives::android::image_decoder_create_source(vm, args),
        75 => crate::natives::injekt::injekt_full_type_get(vm, args),
        76 => crate::natives::injekt::injekt_full_type_init(vm, args),
        77 => crate::natives::injekt::injekt_get_injekt(vm, args),
        78 => crate::natives::injekt::injekt_get_instance(vm, args),
        79 => if n >= 1 { crate::natives::lang::integer_bit_count(vm, args) } else { Err(arity()) },
        80 => if n >= 1 { crate::natives::lang::integer_byte_value(vm, args) } else { Err(arity()) },
        81 => if n >= 2 { crate::natives::lang::integer_compare(vm, args) } else { Err(arity()) },
        82 => if n >= 2 { crate::natives::lang::integer_compare_to(vm, args) } else { Err(arity()) },
        83 => if n >= 2 { crate::natives::lang::integer_equals(vm, args) } else { Err(arity()) },
        84 => if n >= 1 { crate::natives::lang::integer_hash_code(vm, args) } else { Err(arity()) },
        85 => if n >= 1 { crate::natives::lang::integer_highest_one_bit(vm, args) } else { Err(arity()) },
        86 => if n >= 1 { crate::natives::lang::integer_int_value(vm, args) } else { Err(arity()) },
        87 => if n >= 1 { crate::natives::lang::integer_long_value(vm, args) } else { Err(arity()) },
        88 => if n >= 1 { crate::natives::lang::integer_parse_int(vm, args) } else { Err(arity()) },
        89 => if n >= 1 { crate::natives::lang::integer_short_value(vm, args) } else { Err(arity()) },
        90 => if n >= 1 { crate::natives::lang::integer_signum(vm, args) } else { Err(arity()) },
        91 => if n >= 1 { crate::natives::lang::integer_to_binary(vm, args) } else { Err(arity()) },
        92 => if n >= 1 { crate::natives::lang::integer_to_hex(vm, args) } else { Err(arity()) },
        93 => if n >= 1 { crate::natives::lang::integer_to_octal(vm, args) } else { Err(arity()) },
        94 => if n >= 1 { crate::natives::lang::integer_to_string(vm, args) } else { Err(arity()) },
        95 => if n >= 2 { crate::natives::lang::integer_to_string_radix(vm, args) } else { Err(arity()) },
        96 => if n >= 1 { crate::natives::lang::integer_to_string_static(vm, args) } else { Err(arity()) },
        97 => if n >= 1 { crate::natives::lang::integer_value_of(vm, args) } else { Err(arity()) },
        98 => if n >= 1 { crate::natives::lang::integer_value_of_str(vm, args) } else { Err(arity()) },
        99 => if n >= 1 { crate::natives::android::intent_add_flags(vm, args) } else { Err(arity()) },
        100 => if n >= 1 { crate::natives::android::intent_get_data(vm, args) } else { Err(arity()) },
        101 => if n >= 1 { crate::natives::android::intent_init(vm, args) } else { Err(arity()) },
        102 => if n >= 3 { crate::natives::android::intent_put_extra_long(vm, args) } else { Err(arity()) },
        103 => if n >= 3 { crate::natives::android::intent_put_extra_string(vm, args) } else { Err(arity()) },
        104 => if n >= 2 { crate::natives::android::intent_set_action(vm, args) } else { Err(arity()) },
        105 => if n >= 1 { crate::natives::android::intent_set_component(vm, args) } else { Err(arity()) },
        106 => if n >= 2 { crate::natives::crypto::iv_parameter_spec_init(vm, args) } else { Err(arity()) },
        107 => crate::natives::android::json_reader_has_next(vm, args),
        108 => crate::natives::android::json_reader_next_double(vm, args),
        109 => crate::natives::android::link_movement_method_instance(vm, args),
        110 => if n >= 1 { crate::natives::lang::long_bit_count(vm, args) } else { Err(arity()) },
        111 => if n >= 1 { crate::natives::lang::long_byte_value(vm, args) } else { Err(arity()) },
        112 => if n >= 2 { crate::natives::lang::long_compare(vm, args) } else { Err(arity()) },
        113 => if n >= 2 { crate::natives::lang::long_compare_to(vm, args) } else { Err(arity()) },
        114 => if n >= 2 { crate::natives::lang::long_equals(vm, args) } else { Err(arity()) },
        115 => if n >= 1 { crate::natives::lang::long_hash_code(vm, args) } else { Err(arity()) },
        116 => if n >= 1 { crate::natives::lang::long_int_value(vm, args) } else { Err(arity()) },
        117 => if n >= 1 { crate::natives::lang::long_long_value(vm, args) } else { Err(arity()) },
        118 => if n >= 1 { crate::natives::lang::long_parse_long(vm, args) } else { Err(arity()) },
        119 => if n >= 1 { crate::natives::lang::long_short_value(vm, args) } else { Err(arity()) },
        120 => if n >= 1 { crate::natives::lang::long_signum(vm, args) } else { Err(arity()) },
        121 => if n >= 1 { crate::natives::lang::long_to_hex(vm, args) } else { Err(arity()) },
        122 => if n >= 1 { crate::natives::lang::long_to_string(vm, args) } else { Err(arity()) },
        123 => if n >= 2 { crate::natives::lang::long_to_string_radix(vm, args) } else { Err(arity()) },
        124 => if n >= 1 { crate::natives::lang::long_to_string_static(vm, args) } else { Err(arity()) },
        125 => if n >= 1 { crate::natives::lang::long_value_of(vm, args) } else { Err(arity()) },
        126 => if n >= 1 { crate::natives::lang::long_value_of_str(vm, args) } else { Err(arity()) },
        127 => crate::natives::android::looper_instance(vm, args),
        128 => if n >= 2 { crate::natives::crypto::mac_do_final(vm, args) } else { Err(arity()) },
        129 => if n >= 1 { crate::natives::crypto::mac_get_algorithm(vm, args) } else { Err(arity()) },
        130 => if n >= 1 { crate::natives::crypto::mac_get_instance(vm, args) } else { Err(arity()) },
        131 => if n >= 2 { crate::natives::crypto::mac_init(vm, args) } else { Err(arity()) },
        132 => if n >= 2 { crate::natives::android::measure_spec_make(vm, args) } else { Err(arity()) },
        133 => crate::natives::android::normalizer2_instance(vm, args),
        134 => if n >= 2 { crate::natives::android::normalizer2_normalize(vm, args) } else { Err(arity()) },
        135 => if n >= 1 { crate::natives::base::number_byte_value(vm, args) } else { Err(arity()) },
        136 => if n >= 1 { crate::natives::base::number_int_value(vm, args) } else { Err(arity()) },
        137 => if n >= 1 { crate::natives::base::number_long_value(vm, args) } else { Err(arity()) },
        138 => if n >= 1 { crate::natives::base::number_short_value(vm, args) } else { Err(arity()) },
        139 => if n >= 1 { crate::natives::base::object_clone(vm, args) } else { Err(arity()) },
        140 => if n >= 2 { crate::natives::base::object_equals(vm, args) } else { Err(arity()) },
        141 => if n >= 1 { crate::natives::base::object_hash_code(vm, args) } else { Err(arity()) },
        142 => crate::natives::base::object_init(vm, args),
        143 => if n >= 1 { crate::natives::base::object_to_string(vm, args) } else { Err(arity()) },
        144 => if n >= 2 { crate::natives::stream::output_stream_write_byte(vm, args) } else { Err(arity()) },
        145 => if n >= 2 { crate::natives::stream::output_stream_write_bytes(vm, args) } else { Err(arity()) },
        146 => if n >= 4 { crate::natives::stream::output_stream_write_range(vm, args) } else { Err(arity()) },
        147 => crate::natives::android::parcel_fd_open(vm, args),
        148 => if n >= 5 { crate::natives::crypto::pbe_key_spec_init(vm, args) } else { Err(arity()) },
        149 => crate::natives::android::pdf_renderer_open_page(vm, args),
        150 => crate::natives::injekt::prefs_ctx(vm, args),
        151 => crate::natives::injekt::prefs_obj(vm, args),
        152 => crate::natives::injekt::prefs_set(vm, args),
        153 => crate::natives::android::resources_display_metrics(vm, args),
        154 => crate::natives::android::resources_system(vm, args),
        155 => if n >= 2 { crate::natives::strbuf::sb_append_bool(vm, args) } else { Err(arity()) },
        156 => if n >= 2 { crate::natives::strbuf::sb_append_char(vm, args) } else { Err(arity()) },
        157 => if n >= 2 { crate::natives::strbuf::sb_append_code_point(vm, args) } else { Err(arity()) },
        158 => if n >= 2 { crate::natives::strbuf::sb_append_int(vm, args) } else { Err(arity()) },
        159 => if n >= 2 { crate::natives::strbuf::sb_append_long(vm, args) } else { Err(arity()) },
        160 => if n >= 2 { crate::natives::strbuf::sb_append_str(vm, args) } else { Err(arity()) },
        161 => crate::natives::strbuf::sb_capacity(vm, args),
        162 => if n >= 1 { crate::natives::strbuf::sb_init(vm, args) } else { Err(arity()) },
        163 => if n >= 1 { crate::natives::strbuf::sb_length(vm, args) } else { Err(arity()) },
        164 => if n >= 1 { crate::natives::strbuf::sb_to_string(vm, args) } else { Err(arity()) },
        165 => crate::natives::android::search_iterator_done(vm, args),
        166 => if n >= 2 { crate::natives::crypto::secret_key_factory_generate_secret(vm, args) } else { Err(arity()) },
        167 => if n >= 1 { crate::natives::crypto::secret_key_factory_get_instance(vm, args) } else { Err(arity()) },
        168 => if n >= 3 { crate::natives::crypto::secret_key_spec_init(vm, args) } else { Err(arity()) },
        169 => if n >= 2 { crate::natives::lang::short_compare_to(vm, args) } else { Err(arity()) },
        170 => if n >= 1 { crate::natives::lang::short_parse_short(vm, args) } else { Err(arity()) },
        171 => if n >= 1 { crate::natives::lang::short_to_string(vm, args) } else { Err(arity()) },
        172 => if n >= 1 { crate::natives::lang::short_value_of(vm, args) } else { Err(arity()) },
        173 => if n >= 1 { crate::natives::base::soft_reference_get(vm, args) } else { Err(arity()) },
        174 => if n >= 2 { crate::natives::base::soft_reference_init(vm, args) } else { Err(arity()) },
        175 => crate::natives::android::static_layout_builder_obtain_cs(vm, args),
        176 => if n >= 1 { crate::natives::android::static_layout_builder_set(vm, args) } else { Err(arity()) },
        177 => if n >= 1 { crate::natives::base::sys_exit(vm, args) } else { Err(arity()) },
        178 => crate::natives::base::sys_get_property(vm, args),
        179 => if n >= 1 { crate::natives::base::sys_identity_hash_code(vm, args) } else { Err(arity()) },
        180 => crate::natives::base::sys_line_separator(vm, args),
        181 => crate::natives::thread::thread_current(vm, args),
        182 => crate::natives::thread::thread_get_id(vm, args),
        183 => if n >= 1 { crate::natives::thread::thread_get_name(vm, args) } else { Err(arity()) },
        184 => if n >= 1 { crate::natives::thread::thread_interrupt(vm, args) } else { Err(arity()) },
        185 => crate::natives::thread::thread_interrupted(vm, args),
        186 => if n >= 1 { crate::natives::thread::thread_is_alive(vm, args) } else { Err(arity()) },
        187 => if n >= 1 { crate::natives::thread::thread_is_daemon(vm, args) } else { Err(arity()) },
        188 => if n >= 1 { crate::natives::thread::thread_is_interrupted(vm, args) } else { Err(arity()) },
        189 => if n >= 2 { crate::natives::thread::thread_set_daemon(vm, args) } else { Err(arity()) },
        190 => if n >= 2 { crate::natives::thread::thread_set_name(vm, args) } else { Err(arity()) },
        191 => if n >= 1 { crate::natives::base::throwable_fill_in_stack_trace(vm, args) } else { Err(arity()) },
        192 => if n >= 1 { crate::natives::base::throwable_get_cause(vm, args) } else { Err(arity()) },
        193 => if n >= 1 { crate::natives::base::throwable_get_localized_message(vm, args) } else { Err(arity()) },
        194 => if n >= 1 { crate::natives::base::throwable_get_message(vm, args) } else { Err(arity()) },
        195 => crate::natives::base::throwable_get_stack_trace(vm, args),
        196 => crate::natives::base::throwable_get_suppressed(vm, args),
        197 => if n >= 2 { crate::natives::base::throwable_init_cause(vm, args) } else { Err(arity()) },
        198 => crate::natives::android::toast_make_text(vm, args),
        199 => crate::natives::android::typeface_create_from_file(vm, args),
        200 => crate::natives::android::ui_empty_string(vm, args),
        201 => crate::natives::android::ui_false(vm, args),
        202 => crate::natives::android::ui_noop(vm, args),
        203 => crate::natives::android::ui_null(vm, args),
        204 => crate::natives::android::ui_zero(vm, args),
        205 => if n >= 1 { crate::natives::android::uri_build_upon(vm, args) } else { Err(arity()) },
        206 => if n >= 2 { crate::natives::android::uri_builder_append_encoded_path(vm, args) } else { Err(arity()) },
        207 => if n >= 2 { crate::natives::android::uri_builder_append_path(vm, args) } else { Err(arity()) },
        208 => if n >= 3 { crate::natives::android::uri_builder_append_query(vm, args) } else { Err(arity()) },
        209 => if n >= 1 { crate::natives::android::uri_builder_build(vm, args) } else { Err(arity()) },
        210 => if n >= 2 { crate::natives::android::uri_builder_fragment(vm, args) } else { Err(arity()) },
        211 => if n >= 1 { crate::natives::android::uri_builder_to_string(vm, args) } else { Err(arity()) },
        212 => if n >= 1 { crate::natives::android::uri_encode(vm, args) } else { Err(arity()) },
        213 => if n >= 1 { crate::natives::android::uri_get_encoded_path(vm, args) } else { Err(arity()) },
        214 => if n >= 1 { crate::natives::android::uri_get_encoded_query(vm, args) } else { Err(arity()) },
        215 => if n >= 1 { crate::natives::android::uri_get_host(vm, args) } else { Err(arity()) },
        216 => if n >= 1 { crate::natives::android::uri_get_path(vm, args) } else { Err(arity()) },
        217 => if n >= 1 { crate::natives::android::uri_parse(vm, args) } else { Err(arity()) },
        218 => if n >= 1 { crate::natives::android::url_util_valid_url(vm, args) } else { Err(arity()) },
        219 => if n >= 1 { crate::natives::android::view_self(vm, args) } else { Err(arity()) },
        220 => crate::natives::android::web_request_headers(vm, args),
        221 => crate::natives::android::web_settings_instance(vm, args),
        _ => Err(NatErr::Fatal(JvmError::Fatal(String::from_str("unknown built-in native")))),
    }
}


} // verus!
