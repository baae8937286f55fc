use dexvm::natives::injekt::{injekt_full_type_get, injekt_full_type_init, injekt_get_injekt, injekt_get_instance};
use dexvm::natives::{new_object, payload};
use dexvm::object::Native;
use dexvm::value::JValue;
use dexvm::vm::Vm;

fn with_vm<T>(f: impl FnOnce(&mut Vm) -> T) -> T {
    let mut vm = Vm::new(Vec::new()).unwrap();
    f(&mut vm)
}

fn obj_class(vm: &Vm, id: u32) -> u32 {
    vm.arena.objects[id as usize].class
}

#[test]
fn injekt_scope_and_instance_opaque() {
    with_vm(|vm| {
        let scope = injekt_get_injekt(vm, &[]).unwrap();
        assert!(matches!(payload(vm, scope), Some(Native::Opaque)));
    });
}

#[test]
fn injekt_instance_falls_back_to_application() {
    with_vm(|vm| {
        let inst = injekt_get_instance(vm, &[]).unwrap();
        assert_eq!(vm.class_desc_str(obj_class(vm, inst.as_obj())), "android.app.Application");
        let t = new_object(vm, "Ljava/lang/reflect/Type;", Native::Type { desc: "Lokhttp3/OkHttpClient;".into() }).unwrap();
        let inst = injekt_get_instance(vm, &[JValue::Null, t]).unwrap();
        assert_eq!(vm.class_desc_str(obj_class(vm, inst.as_obj())), "okhttp3.OkHttpClient");
    });
}

#[test]
fn full_type_reference() {
    with_vm(|vm| {
        assert!(injekt_full_type_init(vm, &[]).unwrap().is_null());
        let t = injekt_full_type_get(vm, &[]).unwrap();
        assert!(matches!(payload(vm, t), Some(Native::Opaque)));
        let t = injekt_full_type_get(vm, &[JValue::Null]).unwrap();
        assert!(matches!(payload(vm, t), Some(Native::Opaque)));
    });
}

#[test]
fn full_type_of_a_receiver_without_signature_is_opaque() {
    with_vm(|vm| {
        let recv = new_object(vm, "Luy/kohesive/injekt/api/FullTypeReference;", Native::Opaque).unwrap();
        let t = injekt_full_type_get(vm, &[recv]).unwrap();
        assert!(matches!(payload(vm, t), Some(Native::Opaque)));
        assert_eq!(vm.class_desc_str(obj_class(vm, t.as_obj())), "java.lang.reflect.Type");
    });
}

#[test]
fn injekt_registry_lookup_takes_the_last_entry() {
    let reg = vec![(1u32, 10u32), (2, 20), (1, 11)];
    assert_eq!(dexvm::injekt::registry_lookup(&reg, 1), Some(11));
    assert_eq!(dexvm::injekt::registry_lookup(&reg, 2), Some(20));
    assert_eq!(dexvm::injekt::registry_lookup(&reg, 3), None);
}
