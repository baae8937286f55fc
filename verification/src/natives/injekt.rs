//! Host shims for the injekt (kohesive) dependency-injection API and the
//! androidx preference stubs.

use vstd::prelude::*;

use crate::error::NatErr;
use crate::injekt::{located, registry_get, registry_post};
use crate::natives::{fresh_obj, nat_post, new_object, payload, R};
use crate::object::Native;
use crate::value::{to_owned_string, JValue};
use crate::vm::{loaded_desc, payload_spec, room_spec, Vm};

verus! {

/// `Injekt.getInjekt()`: an opaque `InjektScope`.
pub fn injekt_get_injekt(vm: &mut Vm, args: &[JValue]) -> (r: R)
    requires
        old(vm).wf(),
    ensures
        nat_post(old(vm), final(vm)),
        r matches Ok(v) ==> fresh_obj(old(vm), final(vm), v, "Luy/kohesive/injekt/api/InjektScope;"@, Native::Opaque),
        r matches Err(e) ==> e is Fatal,
        room_spec(old(vm)) && loaded_desc(old(vm), "Luy/kohesive/injekt/api/InjektScope;"@) ==> r is Ok,
{
    new_object(vm, "Luy/kohesive/injekt/api/InjektScope;", Native::Opaque)
}

/// The class `InjektFactory.getInstance(type)` instantiates: the
/// descriptor a reflected `Type` argument carries, else `Application`.
pub open spec fn instance_desc(vm: &Vm, args: Seq<JValue>) -> Seq<char> {
    if args.len() > 1 && (payload_spec(vm, args[1]) matches Some(Native::Type { desc })) {
        payload_spec(vm, args[1])->Some_0->Type_desc@
    } else {
        "Landroid/app/Application;"@
    }
}

/// `InjektFactory.getInstance(Type)`: an opaque instance of the concrete
/// type carried by the `java.lang.reflect.Type` argument, or of
/// `android.app.Application` when the type is unknown.
pub fn injekt_get_instance(vm: &mut Vm, args: &[JValue]) -> (r: R)
    requires
        old(vm).wf(),
    ensures
        nat_post(old(vm), final(vm)),
        r matches Ok(v) ==> fresh_obj(old(vm), final(vm), v, instance_desc(old(vm), args@), Native::Opaque),
        r matches Err(e) ==> e is Fatal,
        room_spec(old(vm)) && loaded_desc(old(vm), instance_desc(old(vm), args@)) ==> r is Ok,
{
    let desc = if args.len() > 1 {
        match payload(vm, args[1]) {
            Some(Native::Type { desc }) => to_owned_string(desc.as_str()),
            _ => to_owned_string("Landroid/app/Application;"),
        }
    } else {
        to_owned_string("Landroid/app/Application;")
    };
    new_object(vm, desc.as_str(), Native::Opaque)
}

/// `FullTypeReference.<init>()`: nothing to set up.
pub fn injekt_full_type_init(vm: &mut Vm, args: &[JValue]) -> (r: R)
    ensures
        *final(vm) == *old(vm),
        r == Ok::<JValue, NatErr>(JValue::Null),
{
    Ok(JValue::Null)
}

/// The payload `FullTypeReference.getType()` gives its reflected `Type`,
/// judged against the VM after the registry was brought up to date.
pub open spec fn full_type_payload(old_vm: &Vm, vm: &Vm, args: Seq<JValue>, n: Native) -> bool {
    if args.len() > 0 && (args[0] matches JValue::Obj(o) && (o as int) < old_vm.arena.objects@.len()) {
        let class = old_vm.arena.objects@[args[0]->Obj_0 as int].class;
        let key = old_vm.classes@[class as int].descriptor;
        let desc = old_vm.intern@[key as int]@;
        match registry_get(vm.injekt_type_by_subclass@, key) {
            Some(t) if (t as int) < vm.intern@.len() => n matches Native::Type { desc: d } && d@ == vm.intern@[t as int]@,
            _ => match n {
                Native::Type { desc: sig } => sig@.len() > 0 && exists|d: int, k: int| #[trigger] located(old_vm, desc, d, k)
                    && (old_vm.dexes@[d].classes@[k].generic_signature matches Some(g) && g@ == sig@),
                Native::Opaque => (exists|d: int, k: int| #[trigger] located(old_vm, desc, d, k)
                    && (old_vm.dexes@[d].classes@[k].generic_signature matches Some(g) ==> g@.len() == 0))
                    || (old_vm.dexes@.len() <= u32::MAX ==> forall|d: int| 0 <= d < old_vm.dexes@.len()
                        ==> !crate::loader::dex_defines(#[trigger] old_vm.dexes@[d], desc)),
                _ => false,
            },
        }
    } else {
        n == Native::Opaque
    }
}

/// `FullTypeReference.getType()`: the concrete generic type of the
/// receiver's class, from the bytecode-derived injekt registry or else the
/// class's `Signature` annotation; an opaque `Type` when neither knows it.
pub fn injekt_full_type_get(vm: &mut Vm, args: &[JValue]) -> (r: R)
    requires
        old(vm).wf(),
    ensures
        nat_post(old(vm), final(vm)),
        r matches Ok(v) ==> exists|n: Native| fresh_obj(old(vm), final(vm), v, "Ljava/lang/reflect/Type;"@, n)
            && #[trigger] full_type_payload(old(vm), final(vm), args@, n),
        r matches Err(e) ==> e is Fatal,
        !(args@.len() > 0 && (args@[0] matches JValue::Obj(o) && (o as int) < old(vm).arena.objects@.len()))
            && room_spec(old(vm)) && loaded_desc(old(vm), "Ljava/lang/reflect/Type;"@) ==> r is Ok,
{
    let mut class: u32 = 0;
    let mut live = false;
    if args.len() > 0 {
        match args[0] {
            JValue::Obj(o) => {
                if (o as usize) < vm.arena.objects.len() {
                    class = vm.arena.objects[o as usize].class;
                    live = true;
                }
            },
            _ => {},
        }
    }
    if !live {
        let r = new_object(vm, "Ljava/lang/reflect/Type;", Native::Opaque);
        proof {
            assert(full_type_payload(old(vm), final(vm), args@, Native::Opaque));
        }
        return r;
    }
    let ghost old_vm = *vm;
    let key = vm.classes[class as usize].descriptor;
    let found = vm.injekt_type_of(key);
    let ghost mid = *vm;
    match found {
        Some(t) => {
            if (t as usize) < vm.intern.len() {
                let desc = to_owned_string(vm.str_of(t));
                let ghost n = Native::Type { desc };
                let r = new_object(vm, "Ljava/lang/reflect/Type;", Native::Type { desc });
                proof {
                    assert(full_type_payload(&old_vm, vm, args@, n));
                }
                return r;
            }
        },
        None => {},
    }
    let sig = vm.generic_signature(class);
    proof {
        crate::injekt::lemma_registry_get_in(mid.injekt_type_by_subclass@, key);
        let desc_s = old_vm.intern@[key as int]@;
        assert(mid.intern@[key as int]@ == desc_s);
        if sig is Some {
            let (d, k) = choose|d: int, k: int| #[trigger] located(&mid, desc_s, d, k)
                && (mid.dexes@[d].classes@[k].generic_signature matches Some(g) && g@ == sig->Some_0@);
            assert(located(&old_vm, desc_s, d, k));
        } else if exists|d: int, k: int| #[trigger] located(&mid, desc_s, d, k)
            && mid.dexes@[d].classes@[k].generic_signature is None {
            let (d, k) = choose|d: int, k: int| #[trigger] located(&mid, desc_s, d, k)
                && mid.dexes@[d].classes@[k].generic_signature is None;
            assert(located(&old_vm, desc_s, d, k));
        }
    }
    let desc = match sig {
        Some(s) => s,
        None => String::new(),
    };
    if desc.unicode_len() == 0 {
        let r = new_object(vm, "Ljava/lang/reflect/Type;", Native::Opaque);
        proof {
            assert(full_type_payload(&old_vm, vm, args@, Native::Opaque));
        }
        r
    } else {
        let ghost n = Native::Type { desc };
        let r = new_object(vm, "Ljava/lang/reflect/Type;", Native::Type { desc });
        proof {
            assert(full_type_payload(&old_vm, vm, args@, n));
        }
        r
    }
}

/// `Preference.<init>(Context)` and friends: nothing to set up.
pub fn prefs_obj(vm: &mut Vm, args: &[JValue]) -> (r: R)
    ensures
        *final(vm) == *old(vm),
        r == Ok::<JValue, NatErr>(JValue::Null),
{
    Ok(JValue::Null)
}

/// `Preference.setKey(..)` and the other setters: ignored.
pub fn prefs_set(vm: &mut Vm, args: &[JValue]) -> (r: R)
    ensures
        *final(vm) == *old(vm),
        r == Ok::<JValue, NatErr>(JValue::Null),
{
    Ok(JValue::Null)
}

/// `Preference.getContext()`: an opaque `Context`.
pub fn prefs_ctx(vm: &mut Vm, args: &[JValue]) -> (r: R)
    requires
        old(vm).wf(),
    ensures
        nat_post(old(vm), final(vm)),
        r matches Ok(v) ==> fresh_obj(old(vm), final(vm), v, "Landroid/content/Context;"@, Native::Opaque),
        r matches Err(e) ==> e is Fatal,
        room_spec(old(vm)) && loaded_desc(old(vm), "Landroid/content/Context;"@) ==> r is Ok,
{
    new_object(vm, "Landroid/content/Context;", Native::Opaque)
}

} // verus!
