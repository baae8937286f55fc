//! Per-class mutable state: static field values (materializing lazy ones on
//! first read), class initialization, the cached `Class` objects, dex
//! string constants, and the lazy static materializers of shim classes.

use vstd::prelude::*;

use crate::class::{pair_lookup, Class, ShimLazy};
use crate::error::JvmError;
use crate::object::{ClassOrPrim, Native};
use crate::resolve::static_in_chain;
use crate::value::{to_owned_string, JValue};
use crate::vm::{loaded_desc, room_spec, evolves, heap_post, lemma_evolves_refl, lemma_evolves_trans, lemma_grows_evolves, lemma_reshape_class,
    load_post, same_shape, FieldRef, Vm};

verus! {

/// The class a static field reference names, when it is loaded: the first
/// class with the reference's class descriptor.
pub open spec fn field_class(vm: &Vm, fr: FieldRef) -> Option<u32> {
    if exists|c: u32| crate::vm::is_first_class(vm, fr.class_desc, c) {
        Some(choose|c: u32| crate::vm::is_first_class(vm, fr.class_desc, c))
    } else {
        None
    }
}

/// The slot (owning class, index) of static field `fr` once its class is
/// loaded: found from that class up its superclasses.
pub open spec fn static_slot(vm: &Vm, fr: FieldRef) -> Option<(u32, u32)> {
    match field_class(vm, fr) {
        Some(c) => static_in_chain(vm, c, (fr.name, fr.ty)),
        None => None,
    }
}

/// The value static field `fr` holds when its slot exists, its owning class
/// has started initialization and no lazy value waits in the slot.
pub open spec fn static_settled(vm: &Vm, fr: FieldRef) -> Option<JValue> {
    match static_slot(vm, fr) {
        Some((o, off)) => if (o as int) < vm.classes@.len() && (off as int) < vm.classes@[o as int].statics@.len()
            && vm.classes@[o as int].clinit_state != 0 && vm.classes@[o as int].statics_lazy@[off as int] is None {
            Some(vm.classes@[o as int].statics@[off as int])
        } else {
            None
        },
        None => None,
    }
}

/// The owner of static field `fr` has started initialization.
pub open spec fn static_owner_ready(vm: &Vm, fr: FieldRef) -> bool {
    static_slot(vm, fr) matches Some((o, off)) && (o as int) < vm.classes@.len()
        && (off as int) < vm.classes@[o as int].statics@.len() && vm.classes@[o as int].clinit_state != 0
}

proof fn lemma_first_class_unique(vm: &Vm, d: u32, a: u32, b: u32)
    requires
        crate::vm::is_first_class(vm, d, a),
        crate::vm::is_first_class(vm, d, b),
    ensures
        a == b,
{
    if a < b {
        assert(vm.classes@[a as int].descriptor == d);
    } else if b < a {
        assert(vm.classes@[b as int].descriptor == d);
    }
}

/// Class shapes that stay the same keep the static slot lookup.
proof fn lemma_chain_same_shape(v1: &Vm, v2: &Vm, c: u32, key: (u32, u32))
    requires
        v1.classes@.len() <= v2.classes@.len(),
        forall|j: int| 0 <= j < v1.classes@.len() ==> same_shape(v1.classes@[j], #[trigger] v2.classes@[j]),
        (c as int) < v1.classes@.len(),
    ensures
        static_in_chain(v2, c, key) == static_in_chain(v1, c, key),
    decreases c,
{
    assert(same_shape(v1.classes@[c as int], v2.classes@[c as int]));
    match v1.classes@[c as int].superclass {
        Some(s) => if s < c {
            lemma_chain_same_shape(v1, v2, s, key);
        },
        None => {},
    }
}

/// Class shapes that stay the same keep the static slot of a field.
pub proof fn lemma_slot_same_shape(v1: &Vm, v2: &Vm, fr: FieldRef)
    requires
        v1.classes@.len() <= v2.classes@.len(),
        forall|j: int| 0 <= j < v1.classes@.len() ==> same_shape(v1.classes@[j], #[trigger] v2.classes@[j]),
        field_class(v1, fr) is Some,
    ensures
        field_class(v2, fr) == field_class(v1, fr),
        static_slot(v2, fr) == static_slot(v1, fr),
{
    let c = choose|c: u32| crate::vm::is_first_class(v1, fr.class_desc, c);
    assert(same_shape(v1.classes@[c as int], v2.classes@[c as int]));
    assert forall|j: int| 0 <= j < c implies v2.classes@[j].descriptor != fr.class_desc by {
        assert(same_shape(v1.classes@[j], v2.classes@[j]));
    }
    assert(crate::vm::is_first_class(v2, fr.class_desc, c));
    let c2 = choose|c: u32| crate::vm::is_first_class(v2, fr.class_desc, c);
    lemma_first_class_unique(v2, fr.class_desc, c, c2);
    lemma_chain_same_shape(v1, v2, c, (fr.name, fr.ty));
}

/// `v` is a fresh-or-existing object whose payload is `n`.
pub open spec fn holds(vm: &Vm, v: JValue, n: Native) -> bool {
    v matches JValue::Obj(id) && (id as int) < vm.arena.objects@.len() && vm.arena.objects@[id as int].native == Some(n)
}

/// `v` is an object of the class whose descriptor is `desc`.
pub open spec fn obj_of_desc(vm: &Vm, v: JValue, desc: Seq<char>) -> bool {
    &&& v matches JValue::Obj(id) && (id as int) < vm.arena.objects@.len()
    &&& ({
        let c = vm.arena.objects@[v->Obj_0 as int].class;
        (c as int) < vm.classes@.len() && vm.intern@[vm.classes@[c as int].descriptor as int]@ == desc
    })
}

/// `v` is a `String` object holding `s`.
pub open spec fn str_obj(vm: &Vm, v: JValue, s: Seq<char>) -> bool {
    match v {
        JValue::Obj(id) => (id as int) < vm.arena.objects@.len() && match vm.arena.objects@[id as int].native {
            Some(Native::Str(t)) => t@ == s,
            _ => false,
        },
        _ => false,
    }
}

impl Vm {
    /// Replaces class record `c` by `k`, which has the same shape.
    fn put_class(&mut self, c: u32, k: Class)
        requires
            old(self).wf(),
            (c as int) < old(self).classes@.len(),
            same_shape(old(self).classes@[c as int], k),
        ensures
            final(self).frames == old(self).frames,
            evolves(old(self), final(self)),
            final(self).classes@ == old(self).classes@.update(c as int, k),
            final(self).arena == old(self).arena,
            final(self).intern == old(self).intern,
            final(self).string_objs == old(self).string_objs,
            final(self).runtime_strings == old(self).runtime_strings,
            final(self).injekt_type_by_subclass == old(self).injekt_type_by_subclass,
    {
        let ghost v0 = *self;
        self.classes.set(c as usize, k);
        proof {
            lemma_reshape_class(&v0, self, c as int, k);
            assert forall|j: int| 0 <= j < v0.classes@.len() implies same_shape(v0.classes@[j], #[trigger] self.classes@[j]) by {
            }
        }
    }

    /// Takes class record `c` out, leaving an empty record in its place.
    pub(crate) fn take_class(&mut self, c: u32) -> (r: Class)
        requires
            (c as int) < old(self).classes@.len(),
        ensures
            final(self).frames == old(self).frames,
            r == old(self).classes@[c as int],
            final(self).classes@.len() == old(self).classes@.len(),
            final(self).classes@ == old(self).classes@.update(c as int, final(self).classes@[c as int]),
            final(self).arena == old(self).arena,
            final(self).intern == old(self).intern,
            final(self).hot == old(self).hot,
            final(self).dexes == old(self).dexes,
            final(self).natives == old(self).natives,
            final(self).host_natives == old(self).host_natives,
            final(self).perms == old(self).perms,
            final(self).string_objs == old(self).string_objs,
            final(self).runtime_strings == old(self).runtime_strings,
            final(self).injekt_type_by_subclass == old(self).injekt_type_by_subclass,
    {
        let mut k = Class::empty(0, 0);
        self.classes.set_and_swap(c as usize, &mut k);
        k
    }

    /// Sets the initialization state of class `c`.
    pub fn set_clinit_state(&mut self, c: u32, state: u8)
        requires
            old(self).wf(),
            (c as int) < old(self).classes@.len(),
        ensures
            final(self).frames == old(self).frames,
            evolves(old(self), final(self)),
            final(self).classes@[c as int].clinit_state == state,
            final(self).classes@[c as int].statics == old(self).classes@[c as int].statics,
            final(self).classes@[c as int].statics_lazy == old(self).classes@[c as int].statics_lazy,
            forall|j: int| 0 <= j < old(self).classes@.len() && j != c ==> final(self).classes@[j] == old(self).classes@[j],
            final(self).arena == old(self).arena,
            final(self).intern == old(self).intern,
            final(self).string_objs == old(self).string_objs,
            final(self).runtime_strings == old(self).runtime_strings,
    {
        let ghost v0 = *self;
        let mut k = self.take_class(c);
        k.clinit_state = state;
        let ghost v1 = *self;
        proof {
            // the placeholder left by take_class is never observed
            assert(v1.classes@.update(c as int, k) == v0.classes@.update(c as int, k));
        }
        self.classes.set(c as usize, k);
        proof {
            assert(self.classes@ =~= v0.classes@.update(c as int, k));
            lemma_reshape_class(&v0, self, c as int, k);
            assert forall|j: int| 0 <= j < v0.classes@.len() implies same_shape(v0.classes@[j], #[trigger] self.classes@[j]) by {
            }
        }
    }

    /// Begins initializing class `class_id`: returns the slot of its
    /// `<clinit>` when that must run now (the class is then marked as being
    /// initialized), `None` when the class is initialized or being
    /// initialized, or has no static initializer (it is then marked
    /// initialized).
    pub fn ensure_class_initialized(&mut self, class_id: u32) -> (r: Option<u32>)
        requires
            old(self).wf(),
            (class_id as int) < old(self).classes@.len(),
        ensures
            final(self).frames == old(self).frames,
            evolves(old(self), final(self)),
            old(self).classes@[class_id as int].clinit_state != 0 ==> r is None && *final(self) == *old(self),
            old(self).classes@[class_id as int].clinit_state == 0 ==> r == crate::class::first_static_named(
                old(self).classes@[class_id as int].methods@, old(self).hot.clinit)
                && final(self).classes@[class_id as int].clinit_state == (if r is Some { 1u8 } else { 2u8 }),
            forall|j: int| 0 <= j < old(self).classes@.len() && j != class_id ==> final(self).classes@[j] == old(self).classes@[j],
            final(self).arena == old(self).arena,
            final(self).intern == old(self).intern,
    {
        if self.classes[class_id as usize].clinit_state != 0 {
            proof { lemma_evolves_refl(self); }
            return None;
        }
        let clinit = self.classes[class_id as usize].clinit_slot(self.hot.clinit);
        match clinit {
            Some(slot) => {
                self.set_clinit_state(class_id, 1);
                Some(slot)
            },
            None => {
                self.set_clinit_state(class_id, 2);
                None
            },
        }
    }

    /// Stores `v` into static slot `off` of class `c` (dropping any lazy
    /// materializer of the slot).
    pub fn set_static(&mut self, c: u32, off: u32, v: JValue)
        requires
            old(self).wf(),
            (c as int) < old(self).classes@.len(),
            (off as int) < old(self).classes@[c as int].statics@.len(),
        ensures
            final(self).frames == old(self).frames,
            evolves(old(self), final(self)),
            final(self).classes@[c as int].statics@ == old(self).classes@[c as int].statics@.update(off as int, v),
            final(self).classes@[c as int].statics_lazy@ == old(self).classes@[c as int].statics_lazy@.update(off as int, None),
            final(self).classes@[c as int].clinit_state == old(self).classes@[c as int].clinit_state,
            forall|j: int| 0 <= j < old(self).classes@.len() && j != c ==> final(self).classes@[j] == old(self).classes@[j],
            final(self).arena == old(self).arena,
            final(self).intern == old(self).intern,
            final(self).string_objs == old(self).string_objs,
            final(self).runtime_strings == old(self).runtime_strings,
    {
        let ghost v0 = *self;
        proof { assert(v0.class_ok(v0.classes@[c as int])); }
        let mut k = self.take_class(c);
        k.statics.set(off as usize, v);
        k.statics_lazy.set(off as usize, None);
        self.classes.set(c as usize, k);
        proof {
            assert(self.classes@ =~= v0.classes@.update(c as int, k));
            lemma_reshape_class(&v0, self, c as int, k);
            assert forall|j: int| 0 <= j < v0.classes@.len() implies same_shape(v0.classes@[j], #[trigger] self.classes@[j]) by {
            }
        }
    }

    /// Allocates an object of the class named `desc` with payload `native`.
    pub fn alloc_native(&mut self, desc: &str, native: Native) -> (r: Result<JValue, JvmError>)
        requires
            old(self).wf(),
        ensures
            final(self).frames == old(self).frames,
            heap_post(old(self), final(self)),
            evolves(old(self), final(self)),
            r matches Ok(v) ==> holds(final(self), v, native),
            r matches Ok(v) ==> obj_of_desc(final(self), v, desc@),
            final(self).string_objs == old(self).string_objs,
            final(self).runtime_strings == old(self).runtime_strings,
            room_spec(old(self)) && loaded_desc(old(self), desc@) ==> r is Ok,
    {
        let ghost v0 = *self;
        let class = self.ensure_class_by_desc(desc)?;
        let ghost v1 = *self;
        match self.alloc_obj(class, Vec::new(), Some(native)) {
            Some(id) => {
                proof { lemma_grows_evolves(&v0, self); }
                Ok(JValue::Obj(id))
            },
            None => {
                proof { lemma_grows_evolves(&v0, self); }
                Err(JvmError::Fatal(String::from_str("heap exhausted")))
            },
        }
    }

    /// The `java.lang.Class` object of class `class_id` (one per class).
    pub fn class_obj(&mut self, class_id: u32) -> (r: Result<JValue, JvmError>)
        requires
            old(self).wf(),
            (class_id as int) < old(self).classes@.len(),
        ensures
            final(self).frames == old(self).frames,
            evolves(old(self), final(self)),
            old(self).classes@[class_id as int].class_obj matches Some(o) ==> r == Ok::<JValue, JvmError>(JValue::Obj(o))
                && *final(self) == *old(self),
            old(self).classes@[class_id as int].class_obj is None && r is Ok ==>
                holds(final(self), r->Ok_0, Native::ClassObj(ClassOrPrim::Class(class_id)))
                && final(self).classes@[class_id as int].class_obj == Some(r->Ok_0->Obj_0)
                && obj_of_desc(final(self), r->Ok_0, "Ljava/lang/Class;"@),
            room_spec(old(self)) && loaded_desc(old(self), "Ljava/lang/Class;"@) ==> r is Ok,
    {
        match self.classes[class_id as usize].class_obj {
            Some(o) => {
                proof { lemma_evolves_refl(self); }
                return Ok(JValue::Obj(o));
            },
            None => {},
        }
        let ghost v0 = *self;
        let v = self.alloc_native("Ljava/lang/Class;", Native::ClassObj(ClassOrPrim::Class(class_id)))?;
        let ghost v1 = *self;
        let o = match v {
            JValue::Obj(o) => o,
            _ => return Err(JvmError::Fatal(String::from_str("heap exhausted"))),
        };
        proof { assert(v1.classes@[class_id as int] == v0.classes@[class_id as int]); }
        let mut k = self.take_class(class_id);
        k.class_obj = Some(o);
        self.classes.set(class_id as usize, k);
        proof {
            let oc = v1.arena.objects@[o as int].class as int;
            assert(self.arena == v1.arena);
            assert(self.classes@[oc].descriptor == v1.classes@[oc].descriptor);
            assert(self.classes@ =~= v1.classes@.update(class_id as int, k));
            lemma_reshape_class(&v1, self, class_id as int, k);
            assert forall|j: int| 0 <= j < v1.classes@.len() implies same_shape(v1.classes@[j], #[trigger] self.classes@[j]) by {
            }
            lemma_evolves_trans(&v0, &v1, self);
        }
        Ok(v)
    }

    /// The `String` object of string constant `string_id` of dex `dex_idx`
    /// (one per constant).
    pub fn dex_string(&mut self, dex_idx: u32, string_id: u32) -> (r: Result<JValue, JvmError>)
        requires
            old(self).wf(),
            (dex_idx as int) < old(self).dexes@.len(),
        ensures
            final(self).frames == old(self).frames,
            heap_post(old(self), final(self)),
            evolves(old(self), final(self)),
            (string_id as int) >= old(self).dexes@[dex_idx as int].strings@.len() ==> (r matches Err(JvmError::Resolution(m))
                && m@ == "bad string idx "@ + crate::text::unsigned_digits(string_id as nat, 10)),
            (string_id as int) < old(self).dexes@[dex_idx as int].strings@.len()
                && old(self).arena.objects@.len() < 0x7fff_ffff ==> r is Ok,
            r matches Ok(v) ==> (string_id as int) < old(self).dexes@[dex_idx as int].strings@.len()
                && str_obj(final(self), v, old(self).dexes@[dex_idx as int].strings@[string_id as int]@),
            r matches Ok(v) ==> v matches JValue::Obj(o) && cached_string(final(self), dex_idx, string_id) == Some(o),
            cached_string(old(self), dex_idx, string_id) matches Some(o) ==> r == Ok::<JValue, JvmError>(JValue::Obj(o))
                && *final(self) == *old(self),
    {
        let ghost v0 = *self;
        let text = match self.dexes[dex_idx as usize].string_at(string_id) {
            Some(t) => to_owned_string(t),
            None => return Err(JvmError::Resolution(crate::text::with_number("bad string idx ", string_id))),
        };
        match crate::class::pair_get(&self.string_objs, (dex_idx, string_id)) {
            Some(o) => {
                if (o as usize) < self.arena.objects.len() {
                    let same = match &self.arena.objects[o as usize].native {
                        Some(Native::Str(t)) => crate::value::str_eq(t.as_str(), text.as_str()),
                        _ => false,
                    };
                    if same {
                        proof { lemma_evolves_refl(self); }
                        return Ok(JValue::Obj(o));
                    }
                }
            },
            None => {},
        }
        let string_class = self.hot.string;
        match self.alloc_obj(string_class, Vec::new(), Some(Native::Str(text))) {
            Some(id) => {
                crate::class::pair_put(&mut self.string_objs, (dex_idx, string_id), id);
                proof { lemma_grows_evolves(&v0, self); }
                Ok(JValue::Obj(id))
            },
            None => {
                proof { lemma_evolves_refl(self); }
                Err(JvmError::Fatal(String::from_str("heap exhausted")))
            },
        }
    }
}

/// The object that string `sid` of dex `d` was loaded into, while the
/// string table still points at an object holding that text.
pub open spec fn cached_string(vm: &Vm, d: u32, sid: u32) -> Option<u32> {
    match pair_lookup(vm.string_objs@, (d, sid)) {
        Some(o) => if (d as int) < vm.dexes@.len() && (sid as int) < vm.dexes@[d as int].strings@.len()
            && str_obj(vm, JValue::Obj(o), vm.dexes@[d as int].strings@[sid as int]@) {
            Some(o)
        } else {
            None
        },
        None => None,
    }
}

/// A lazy static's value: `Null`, or an object holding `n`.
pub open spec fn lazy_made(old_vm: &Vm, vm: &Vm, r: JValue, n: Native) -> bool {
    &&& evolves(old_vm, vm)
    &&& vm.frames == old_vm.frames
    &&& (r == JValue::Null || holds(vm, r, n))
}

/// An object of class `desc` holding `n`, or `Null` when it cannot be
/// made.
fn lazy_object(vm: &mut Vm, desc: &str, n: Native) -> (r: JValue)
    requires
        old(vm).wf(),
    ensures
        lazy_made(old(vm), final(vm), r, n),
{
    match vm.alloc_native(desc, n) {
        Ok(v) => v,
        Err(_) => JValue::Null,
    }
}

/// `System.out` / `System.err`.
pub fn lazy_print_stream(vm: &mut Vm) -> (r: JValue)
    requires
        old(vm).wf(),
    ensures
        lazy_made(old(vm), final(vm), r, Native::PrintStream),
{
    lazy_object(vm, "Ljava/io/PrintStream;", Native::PrintStream)
}

/// `Locale` constants (opaque).
pub fn lazy_opaque_locale(vm: &mut Vm) -> (r: JValue)
    requires
        old(vm).wf(),
    ensures
        lazy_made(old(vm), final(vm), r, Native::Opaque),
{
    lazy_object(vm, "Ljava/util/Locale;", Native::Opaque)
}

/// A `Charset` named `name`.
pub fn lazy_charset(vm: &mut Vm, name: &str) -> (r: JValue)
    requires
        old(vm).wf(),
    ensures
        evolves(old(vm), final(vm)),
        final(vm).frames == old(vm).frames,
        r == JValue::Null || str_obj(final(vm), r, name@),
{
    let v = lazy_object(vm, "Ljava/nio/charset/Charset;", Native::Str(to_owned_string(name)));
    v
}

pub fn lazy_charset_utf8(vm: &mut Vm) -> (r: JValue)
    requires
        old(vm).wf(),
    ensures
        evolves(old(vm), final(vm)),
        final(vm).frames == old(vm).frames,
        r == JValue::Null || str_obj(final(vm), r, "UTF-8"@),
{
    lazy_charset(vm, "UTF-8")
}

pub fn lazy_charset_iso(vm: &mut Vm) -> (r: JValue)
    requires
        old(vm).wf(),
    ensures
        evolves(old(vm), final(vm)),
        final(vm).frames == old(vm).frames,
        r == JValue::Null || str_obj(final(vm), r, "ISO-8859-1"@),
{
    lazy_charset(vm, "ISO-8859-1")
}

pub fn lazy_charset_ascii(vm: &mut Vm) -> (r: JValue)
    requires
        old(vm).wf(),
    ensures
        evolves(old(vm), final(vm)),
        final(vm).frames == old(vm).frames,
        r == JValue::Null || str_obj(final(vm), r, "US-ASCII"@),
{
    lazy_charset(vm, "US-ASCII")
}

/// The `Class` object of primitive type `code` (`'I'`, `'J'`, ...).
pub fn prim_class_obj(vm: &mut Vm, code: u8) -> (r: JValue)
    requires
        old(vm).wf(),
    ensures
        lazy_made(old(vm), final(vm), r, Native::ClassObj(ClassOrPrim::Primitive(code))),
{
    lazy_object(vm, "Ljava/lang/Class;", Native::ClassObj(ClassOrPrim::Primitive(code)))
}

/// `Integer.TYPE`.
pub fn lazy_int_type(vm: &mut Vm) -> (r: JValue)
    requires old(vm).wf(),
    ensures lazy_made(old(vm), final(vm), r, Native::ClassObj(ClassOrPrim::Primitive(73u8))),
{
    prim_class_obj(vm, 73)
}

/// `Long.TYPE`.
pub fn lazy_long_type(vm: &mut Vm) -> (r: JValue)
    requires old(vm).wf(),
    ensures lazy_made(old(vm), final(vm), r, Native::ClassObj(ClassOrPrim::Primitive(74u8))),
{
    prim_class_obj(vm, 74)
}

/// `Short.TYPE`.
pub fn lazy_short_type(vm: &mut Vm) -> (r: JValue)
    requires old(vm).wf(),
    ensures lazy_made(old(vm), final(vm), r, Native::ClassObj(ClassOrPrim::Primitive(83u8))),
{
    prim_class_obj(vm, 83)
}

/// `Byte.TYPE`.
pub fn lazy_byte_type(vm: &mut Vm) -> (r: JValue)
    requires old(vm).wf(),
    ensures lazy_made(old(vm), final(vm), r, Native::ClassObj(ClassOrPrim::Primitive(66u8))),
{
    prim_class_obj(vm, 66)
}

/// `Character.TYPE`.
pub fn lazy_char_type(vm: &mut Vm) -> (r: JValue)
    requires old(vm).wf(),
    ensures lazy_made(old(vm), final(vm), r, Native::ClassObj(ClassOrPrim::Primitive(67u8))),
{
    prim_class_obj(vm, 67)
}

/// `Boolean.TYPE`.
pub fn lazy_bool_type(vm: &mut Vm) -> (r: JValue)
    requires old(vm).wf(),
    ensures lazy_made(old(vm), final(vm), r, Native::ClassObj(ClassOrPrim::Primitive(90u8))),
{
    prim_class_obj(vm, 90)
}

/// `Float.TYPE`.
pub fn lazy_float_type(vm: &mut Vm) -> (r: JValue)
    requires old(vm).wf(),
    ensures lazy_made(old(vm), final(vm), r, Native::ClassObj(ClassOrPrim::Primitive(70u8))),
{
    prim_class_obj(vm, 70)
}

/// `Double.TYPE`.
pub fn lazy_double_type(vm: &mut Vm) -> (r: JValue)
    requires old(vm).wf(),
    ensures lazy_made(old(vm), final(vm), r, Native::ClassObj(ClassOrPrim::Primitive(68u8))),
{
    prim_class_obj(vm, 68)
}

/// `Boolean.TRUE`.
pub fn lazy_bool_true(vm: &mut Vm) -> (r: JValue)
    requires old(vm).wf(),
    ensures lazy_made(old(vm), final(vm), r, Native::BoolBox(true)),
{
    lazy_object(vm, "Ljava/lang/Boolean;", Native::BoolBox(true))
}

/// `Boolean.FALSE`.
pub fn lazy_bool_false(vm: &mut Vm) -> (r: JValue)
    requires old(vm).wf(),
    ensures lazy_made(old(vm), final(vm), r, Native::BoolBox(false)),
{
    lazy_object(vm, "Ljava/lang/Boolean;", Native::BoolBox(false))
}

/// The declared type of the static slot `(owner, off)` of class `owner`.
fn static_slot_type(c: &Class, owner: u32, off: u32) -> (r: Option<u32>)
    ensures
        r matches Some(ty) ==> exists|i: int| 0 <= i < c.static_fields@.len() && c.static_fields@[i].1 == (owner, off)
            && c.static_fields@[i].0.1 == ty && forall|j: int| 0 <= j < i ==> c.static_fields@[j].1 != (owner, off),
        r is None ==> forall|j: int| 0 <= j < c.static_fields@.len() ==> c.static_fields@[j].1 != (owner, off),
{
    let mut i: usize = 0;
    while i < c.static_fields.len()
        invariant
            i <= c.static_fields@.len(),
            forall|j: int| 0 <= j < i ==> c.static_fields@[j].1 != (owner, off),
        decreases c.static_fields@.len() - i,
    {
        let (key, at) = c.static_fields[i];
        if at.0 == owner && at.1 == off {
            return Some(key.1);
        }
        i += 1;
    }
    None
}

impl Vm {
    /// The value a lazy static of slot `off` of class `owner` stands for.
    pub fn materialize(&mut self, lazy: ShimLazy, owner: u32, off: u32) -> (r: JValue)
        requires
            old(self).wf(),
            (owner as int) < old(self).classes@.len(),
        ensures
            final(self).frames == old(self).frames,
            evolves(old(self), final(self)),
    {
        let ghost v0 = *self;
        match lazy {
            ShimLazy::PrintStream => lazy_print_stream(self),
            ShimLazy::Locale => lazy_opaque_locale(self),
            ShimLazy::CharsetUtf8 => lazy_charset_utf8(self),
            ShimLazy::CharsetIso => lazy_charset_iso(self),
            ShimLazy::CharsetAscii => lazy_charset_ascii(self),
            ShimLazy::IntType => lazy_int_type(self),
            ShimLazy::LongType => lazy_long_type(self),
            ShimLazy::ShortType => lazy_short_type(self),
            ShimLazy::ByteType => lazy_byte_type(self),
            ShimLazy::CharType => lazy_char_type(self),
            ShimLazy::BoolType => lazy_bool_type(self),
            ShimLazy::FloatType => lazy_float_type(self),
            ShimLazy::DoubleType => lazy_double_type(self),
            ShimLazy::BoolTrue => lazy_bool_true(self),
            ShimLazy::BoolFalse => lazy_bool_false(self),
            ShimLazy::OpaqueInstance => {
                let ty = static_slot_type(&self.classes[owner as usize], owner, off);
                match ty {
                    Some(t) => {
                        if (t as usize) < self.intern.len() {
                            let desc = to_owned_string(self.intern[t as usize].as_str());
                            lazy_object(self, desc.as_str(), Native::Opaque)
                        } else {
                            proof { lemma_evolves_refl(self); }
                            JValue::Null
                        }
                    },
                    None => {
                        proof { lemma_evolves_refl(self); }
                        JValue::Null
                    },
                }
            },
            ShimLazy::DexString(dex, sid) => {
                if (dex as usize) < self.dexes.len() {
                    match self.dex_string(dex, sid) {
                        Ok(v) => v,
                        Err(_) => JValue::Null,
                    }
                } else {
                    proof { lemma_evolves_refl(self); }
                    JValue::Null
                }
            },
            ShimLazy::DexType(dex, tid) => {
                if (dex as usize) < self.dexes.len() {
                    match self.ensure_class_by_type(dex, tid) {
                        Ok(c) => {
                            let ghost v1 = *self;
                            proof { crate::vm::lemma_grows_evolves(&v0, &v1); }
                            let r = match self.class_obj(c) {
                                Ok(v) => v,
                                Err(_) => JValue::Null,
                            };
                            proof { lemma_evolves_trans(&v0, &v1, self); }
                            r
                        },
                        Err(_) => {
                            proof { crate::vm::lemma_grows_evolves(&v0, self); }
                            JValue::Null
                        },
                    }
                } else {
                    proof { lemma_evolves_refl(self); }
                    JValue::Null
                }
            },
        }
    }

    /// Reads static slot `off` of class `owner`, materializing a lazy value
    /// on first read.
    pub fn static_read(&mut self, owner: u32, off: u32) -> (r: JValue)
        requires
            old(self).wf(),
            (owner as int) < old(self).classes@.len(),
            (off as int) < old(self).classes@[owner as int].statics@.len(),
        ensures
            final(self).frames == old(self).frames,
            evolves(old(self), final(self)),
            old(self).classes@[owner as int].statics_lazy@[off as int] is None ==> *final(self) == *old(self)
                && r == old(self).classes@[owner as int].statics@[off as int],
            final(self).classes@[owner as int].statics_lazy@[off as int] is None,
            final(self).classes@[owner as int].statics@[off as int] == r,
    {
        proof { assert(self.class_ok(self.classes@[owner as int])); }
        match self.classes[owner as usize].statics_lazy[off as usize] {
            Some(lazy) => {
                let ghost v0 = *self;
                let v = self.materialize(lazy, owner, off);
                let ghost v1 = *self;
                proof { assert(same_shape(v0.classes@[owner as int], v1.classes@[owner as int])); }
                self.set_static(owner, off, v);
                proof { lemma_evolves_trans(&v0, &v1, self); }
                v
            },
            None => {
                proof { lemma_evolves_refl(self); }
                self.classes[owner as usize].statics[off as usize]
            },
        }
    }

    /// Resolves static field `fr`: (owning class, slot), the slot checked to
    /// exist.
    pub fn static_access(&mut self, fr: FieldRef) -> (r: Result<(u32, u32), JvmError>)
        requires
            old(self).wf(),
            (fr.class_desc as int) < old(self).intern@.len(),
        ensures
            final(self).frames == old(self).frames,
            evolves(old(self), final(self)),
            r matches Ok((owner, off)) ==> (owner as int) < final(self).classes@.len()
                && (off as int) < final(self).classes@[owner as int].statics@.len(),
            r matches Ok(p) ==> exists|c: int| 0 <= c < final(self).classes@.len()
                && final(self).classes@[c].descriptor == fr.class_desc
                && #[trigger] crate::resolve::static_in_chain(final(self), c as u32, (fr.name, fr.ty)) == Some(p),
            field_class(old(self), fr) is Some ==> *final(self) == *old(self)
                && (r matches Ok(p) ==> static_slot(old(self), fr) == Some(p)),
            static_owner_ready(old(self), fr) ==> r == Ok::<(u32, u32), JvmError>(static_slot(old(self), fr)->Some_0),
    {
        proof {
            if field_class(old(self), fr) is Some {
                let c0 = choose|c: u32| crate::vm::is_first_class(old(self), fr.class_desc, c);
                assert(crate::vm::is_first_class(old(self), fr.class_desc, c0));
            }
        }
        let ghost v0 = *self;
        let start = self.ensure_class_by_desc_id(fr.class_desc);
        proof { crate::vm::lemma_grows_evolves(&v0, self); }
        let start = start?;
        let (owner, off) = self.static_field_owner(start, fr)?;
        if (owner as usize) >= self.classes.len() || (off as usize) >= self.classes[owner as usize].statics.len() {
            return Err(JvmError::Resolution(String::from_str("static field slot missing")));
        }
        proof {
            assert(crate::resolve::static_in_chain(self, start as int as u32, (fr.name, fr.ty)) == Some((owner, off)));
        }
        Ok((owner, off))
    }
}

} // verus!
