use dexvm::error::NatErr;
use dexvm::natives::android::{intent_init, intent_put_extra_string, uri_builder_append_path, uri_builder_append_query, uri_builder_to_string, uri_get_host, uri_parse, url_util_valid_url};
use dexvm::natives::base::{enum_compare_to, enum_name, object_equals, soft_reference_get, soft_reference_init, throwable_get_message, throwable_init_cause};
use dexvm::natives::file::{checked_file_path, file_get_name, file_get_parent, file_init_parent_strings};
use dexvm::natives::thread::{thread_current, thread_get_name, thread_set_daemon, thread_set_name};
use dexvm::natives::{jstr, new_object, new_str, payload};
use dexvm::object::Native;
use dexvm::permission::{FilesystemPermission, Permission};
use dexvm::value::JValue;
use dexvm::vm::Vm;

fn vm() -> Vm {
    Vm::new(Vec::new()).unwrap()
}

fn text(vm: &mut Vm, v: JValue) -> String {
    jstr(vm, v).unwrap()
}

#[test]
fn file_paths_join_and_split() {
    let mut vm = vm();
    let f = new_object(&mut vm, "Ljava/io/File;", Native::File { path: String::new() }).unwrap();
    let a = new_str(&mut vm, "/data/cache");
    let b = new_str(&mut vm, "img.png");
    file_init_parent_strings(&mut vm, &[f, a, b]).unwrap();
    let name = file_get_name(&mut vm, &[f]).unwrap();
    assert_eq!(text(&mut vm, name), "img.png");
    let parent = file_get_parent(&mut vm, &[f]).unwrap();
    assert_eq!(text(&mut vm, parent), "/data/cache");
}

#[test]
fn file_access_needs_a_covering_grant() {
    let mut vm = vm();
    let f = new_object(&mut vm, "Ljava/io/File;", Native::File { path: "/srv/x/y".into() }).unwrap();
    assert!(matches!(checked_file_path(&mut vm, f, false), Err(NatErr::Throw(_))));
    vm.grant(Permission::Filesystem(FilesystemPermission::ReadPath("/srv/x".into())));
    assert_eq!(checked_file_path(&mut vm, f, false).unwrap(), "/srv/x/y");
    assert!(matches!(checked_file_path(&mut vm, f, true), Err(NatErr::Throw(_))));
    vm.grant(Permission::Filesystem(FilesystemPermission::Path("/srv".into())));
    assert_eq!(checked_file_path(&mut vm, f, true).unwrap(), "/srv/x/y");
}

#[test]
fn uri_builder_and_parts() {
    let mut vm = vm();
    let s = new_str(&mut vm, "https://example.com");
    let u = uri_parse(&mut vm, &[s]).unwrap();
    let host = uri_get_host(&mut vm, &[u]).unwrap();
    assert_eq!(text(&mut vm, host), "example.com");
    let b = new_object(&mut vm, "Landroid/net/Uri$Builder;", Native::Opaque).unwrap();
    let seg = new_str(&mut vm, "a b");
    uri_builder_append_path(&mut vm, &[b, seg]).unwrap();
    let k = new_str(&mut vm, "q");
    let v = new_str(&mut vm, "x&y");
    uri_builder_append_query(&mut vm, &[b, k, v]).unwrap();
    uri_builder_append_query(&mut vm, &[b, k, k]).unwrap();
    let out = uri_builder_to_string(&mut vm, &[b]).unwrap();
    assert_eq!(text(&mut vm, out), "a%20b?q=x%26y&q=q");
    let good = new_str(&mut vm, "HTTPS://x");
    assert_eq!(url_util_valid_url(&mut vm, &[good]).unwrap(), JValue::Int(1));
    let bad = new_str(&mut vm, "javascript:x");
    assert_eq!(url_util_valid_url(&mut vm, &[bad]).unwrap(), JValue::Int(0));
}

#[test]
fn intent_extras_replace_by_key() {
    let mut vm = vm();
    let i = new_object(&mut vm, "Landroid/content/Intent;", Native::Opaque).unwrap();
    intent_init(&mut vm, &[i]).unwrap();
    let k = new_str(&mut vm, "k");
    intent_put_extra_string(&mut vm, &[i, k, JValue::Int(1)]).unwrap();
    intent_put_extra_string(&mut vm, &[i, k, JValue::Int(2)]).unwrap();
    match payload(&vm, i) {
        Some(Native::Intent { extras, .. }) => {
            assert_eq!(extras.len(), 1);
            assert_eq!(extras[0].1, JValue::Int(2));
        }
        _ => panic!("not an intent"),
    }
}

#[test]
fn enums_throwables_and_references() {
    let mut vm = vm();
    let a = new_object(&mut vm, "Ljava/lang/Enum;", Native::Enum { name: "A".into(), ordinal: 0 }).unwrap();
    let b = new_object(&mut vm, "Ljava/lang/Enum;", Native::Enum { name: "B".into(), ordinal: 3 }).unwrap();
    assert_eq!(enum_compare_to(&mut vm, &[a, b]).unwrap(), JValue::Int(-1));
    let n = enum_name(&mut vm, &[b]).unwrap();
    assert_eq!(text(&mut vm, n), "B");
    assert_eq!(object_equals(&mut vm, &[a, a]).unwrap(), JValue::Int(1));
    assert_eq!(object_equals(&mut vm, &[a, b]).unwrap(), JValue::Int(0));
    let t = new_object(&mut vm, "Ljava/lang/Throwable;", Native::Throwable { message: Some("boom".into()), cause: JValue::Null }).unwrap();
    assert_eq!(throwable_init_cause(&mut vm, &[t, a]).unwrap(), t);
    let m = throwable_get_message(&mut vm, &[t]).unwrap();
    assert_eq!(text(&mut vm, m), "boom");
    let r = new_object(&mut vm, "Ljava/lang/ref/SoftReference;", Native::Opaque).unwrap();
    soft_reference_init(&mut vm, &[r, b]).unwrap();
    assert_eq!(soft_reference_get(&mut vm, &[r]).unwrap(), b);
}

#[test]
fn threads_keep_their_state() {
    let mut vm = vm();
    let t = thread_current(&mut vm, &[]).unwrap();
    let n = thread_get_name(&mut vm, &[t]).unwrap();
    assert_eq!(text(&mut vm, n), "main");
    let w = new_str(&mut vm, "worker");
    thread_set_name(&mut vm, &[t, w]).unwrap();
    let n = thread_get_name(&mut vm, &[t]).unwrap();
    assert_eq!(text(&mut vm, n), "worker");
    // the main thread is alive, so its daemon flag cannot change
    assert!(matches!(thread_set_daemon(&mut vm, &[t, JValue::Int(1)]), Err(NatErr::Throw(_))));
}

#[test]
fn denied_permission_names_it_in_debug_form() {
    let vm = vm();
    for path in ["\"", "a\\b", "/srv/x"] {
        let p = Permission::Filesystem(FilesystemPermission::Path(path.into()));
        let e = vm.check_permission(&p).unwrap_err();
        assert_eq!(e, dexvm::error::JvmError::Resolution(format!("permission denied: {:?}", p)));
    }
    assert_eq!(
        vm.check_permission(&Permission::Network).unwrap_err(),
        dexvm::error::JvmError::Resolution("permission denied: Network".into())
    );
}
