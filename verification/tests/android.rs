use dexvm::natives::injekt::{prefs_ctx, prefs_obj, prefs_set};
use dexvm::natives::{builtin_entries, payload, NativeFn};
use dexvm::object::Native;
use dexvm::vm::Vm;

#[test]
fn androidx_preferences_stub() {
    let mut vm = Vm::new(Vec::new()).unwrap();
    assert!(prefs_obj(&mut vm, &[]).unwrap().is_null());
    assert!(prefs_set(&mut vm, &[]).unwrap().is_null());
    let ctx = prefs_ctx(&mut vm, &[]).unwrap();
    assert!(matches!(payload(&vm, ctx), Some(Native::Opaque)));
}

#[test]
fn file_table_marks_create_temp_file_static() {
    let entries = builtin_entries();
    let entry = entries.iter().find(|e| e.class == "Ljava/io/File;" && e.name == "createTempFile").unwrap();
    assert!(!entry.instance);
}

#[test]
fn file_natives_are_performed_by_the_host() {
    let entries = builtin_entries();
    let entry = entries.iter().find(|e| e.class == "Ljava/io/File;" && e.name == "exists").unwrap();
    match entry.f {
        NativeFn::Io(id) => assert_eq!(dexvm::natives::io_name(id), "file_exists"),
        _ => panic!("File.exists is not a host input/output native"),
    }
}
