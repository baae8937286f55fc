//! `java.io.File` objects: their paths, the path arithmetic on them, and the
//! permission checks that guard every filesystem access made through them.
//! The filesystem itself is touched by the embedder.

use vstd::prelude::*;

use crate::error::NatErr;
use crate::natives::crypto::{only_changed, text_of};
use crate::natives::{fresh_obj, jstr, nat_post, new_object, new_str, npe, payload, set_payload, str_result, throws, R};
use crate::object::Native;
use crate::permission::{covers, granted, path_under, permission_text, FilesystemPermission, Permission};
use crate::value::{concat, to_owned_string, JValue};
use crate::vm::{payload_spec, Vm};
use vstd::string::StringSliceAdditionalSpecFns;

verus! {

/// `PathBuf::push` on Unix: an absolute `child` replaces the path; otherwise
/// a `/` goes between the two unless `base` is empty or already ends in one.
pub open spec fn path_join(base: Seq<char>, child: Seq<char>) -> Seq<char> {
    if child.len() > 0 && child[0] == '/' {
        child
    } else if base.len() > 0 && base.last() != '/' {
        base + seq!['/'] + child
    } else {
        base + child
    }
}

/// Joining paths is associative: joining `a` with `b` and then with `c` is
/// joining `a` with `b` already joined with `c`; an absolute path replaces
/// what came before it, and a relative one is appended after exactly one `/`.
pub proof fn law_path_join(a: Seq<char>, b: Seq<char>, c: Seq<char>)
    ensures
        path_join(path_join(a, b), c) == path_join(a, path_join(b, c)),
        c.len() > 0 && c[0] == '/' ==> path_join(a, c) == c,
        !(c.len() > 0 && c[0] == '/') && a.len() > 0 ==> ({
            let j = path_join(a, c);
            &&& j.len() >= a.len() + c.len()
            &&& j.subrange(0, a.len() as int) == a
            &&& j.subrange(j.len() - c.len(), j.len() as int) == c
            &&& j[j.len() - c.len() - 1] == '/'
            &&& j.len() <= a.len() + c.len() + 1
        }),
{
    let ab = path_join(a, b);
    let bc = path_join(b, c);
    if c.len() > 0 && c[0] == '/' {
    } else if b.len() > 0 && b[0] == '/' {
        assert(bc.len() > 0 && bc[0] == '/');
    } else {
        if b.len() > 0 {
            assert(bc.len() > 0 && bc[0] == b[0]);
        }
        if a.len() > 0 && a.last() != '/' {
            if b.len() > 0 && b.last() != '/' {
                assert(ab.last() == b.last());
                assert(path_join(ab, c) =~= path_join(a, bc));
            } else if b.len() > 0 {
                assert(ab.last() == '/');
                assert(path_join(ab, c) =~= path_join(a, bc));
            } else {
                assert(ab =~= a + seq!['/']);
                assert(ab.last() == '/');
                assert(bc =~= c);
                assert(path_join(ab, c) =~= path_join(a, bc));
            }
        } else {
            assert(ab =~= a + b);
            if b.len() > 0 && b.last() != '/' {
                assert(ab.last() == b.last());
                assert(path_join(ab, c) =~= path_join(a, bc));
            } else if b.len() > 0 {
                assert(ab.last() == '/');
                assert(path_join(ab, c) =~= path_join(a, bc));
            } else {
                assert(ab =~= a);
                assert(bc =~= c);
            }
        }
    }
    if !(c.len() > 0 && c[0] == '/') && a.len() > 0 {
        let j = path_join(a, c);
        if a.last() != '/' {
            assert(j.subrange(0, a.len() as int) =~= a);
            assert(j.subrange(j.len() - c.len(), j.len() as int) =~= c);
        } else {
            assert(j.subrange(0, a.len() as int) =~= a);
            assert(j.subrange(j.len() - c.len(), j.len() as int) =~= c);
            assert(j[j.len() - c.len() - 1] == a.last());
        }
    }
}

/// `base` joined with `child` as [`path_join`] says.
pub fn join_path(base: &str, child: &str) -> (r: String)
    ensures
        r@ == path_join(base@, child@),
{
    let cl = child.unicode_len();
    if cl > 0 && child.get_char(0) == '/' {
        return to_owned_string(child);
    }
    let bl = base.unicode_len();
    if bl > 0 && base.get_char(bl - 1) != '/' {
        let a = concat(base, "/");
        proof {
            reveal_strlit("/");
        }
        let r = concat(a.as_str(), child);
        proof {
            assert(r@ =~= base@ + seq!['/'] + child@);
        }
        r
    } else {
        concat(base, child)
    }
}

/// What `std::path::Path::file_name` gives for a path: its last normal
/// component (`None` for a root, an empty path, or one ending in `..`).
pub uninterp spec fn path_file_name(p: Seq<char>) -> Option<Seq<char>>;

/// What `std::path::Path::parent` gives for a path: the path without its
/// last component (`None` for a root or an empty path).
pub uninterp spec fn path_parent(p: Seq<char>) -> Option<Seq<char>>;

/// `std::path::Path::file_name`, taken as UTF-8 again.
#[verifier::external_body]
fn std_file_name(p: &str) -> (r: Option<String>)
    ensures
        r matches Some(s) ==> path_file_name(p@) == Some(s@),
        r is None ==> path_file_name(p@) is None,
{
    std::path::Path::new(p).file_name().map(|s| s.to_string_lossy().into_owned())
}

/// `std::path::Path::parent`, taken as UTF-8 again.
#[verifier::external_body]
fn std_parent(p: &str) -> (r: Option<String>)
    ensures
        r matches Some(s) ==> path_parent(p@) == Some(s@),
        r is None ==> path_parent(p@) is None,
{
    std::path::Path::new(p).parent().map(|s| s.to_string_lossy().into_owned())
}

/// The path a `File` value holds.
pub open spec fn file_of(vm: &Vm, v: JValue) -> Option<Seq<char>> {
    match payload_spec(vm, v) {
        Some(Native::File { path }) => Some(path@),
        _ => None,
    }
}

/// The path of a `File` argument; anything else throws
/// `NullPointerException`.
pub fn file_path(vm: &mut Vm, v: JValue) -> (r: Result<String, NatErr>)
    requires
        old(vm).wf(),
    ensures
        nat_post(old(vm), final(vm)),
        r matches Ok(s) ==> file_of(old(vm), v) == Some(s@) && *final(vm) == *old(vm),
        r is Err ==> file_of(old(vm), v) is None && r->Err_0 is Throw,
{
    match payload(vm, v) {
        Some(Native::File { path }) => Ok(to_owned_string(path.as_str())),
        _ => Err(npe(vm)),
    }
}

/// `Ok` when `p` is granted; otherwise a thrown `SecurityException` saying
/// "permission denied: " and the permission.
pub fn check_native_permission(vm: &mut Vm, p: &Permission) -> (r: Result<(), NatErr>)
    requires
        old(vm).wf(),
    ensures
        nat_post(old(vm), final(vm)),
        r is Ok <==> granted(old(vm).perms@, *p),
        r is Ok ==> *final(vm) == *old(vm),
        r matches Err(e) ==> e is Throw && (old(vm).arena.objects@.len() < 0x7fff_ffff ==> {
            &&& throws(final(vm), Err(e), "Ljava/lang/SecurityException;"@)
            &&& final(vm).arena.objects@[e->Throw_0 as int].native->Some_0->Throwable_message->Some_0@
                == "permission denied: "@ + permission_text(*p)
        }),
{
    if vm.has_permission(p) {
        Ok(())
    } else {
        let d = p.describe();
        let msg = concat("permission denied: ", d.as_str());
        let t = vm.throwable_of("Ljava/lang/SecurityException;", msg.as_str());
        Err(NatErr::Throw(t))
    }
}

/// Filesystem grant `g` lets the guest read (`write` false) or write `q`.
pub open spec fn grant_allows(g: FilesystemPermission, q: Seq<char>, write: bool) -> bool {
    match g {
        FilesystemPermission::Any => true,
        FilesystemPermission::Path(p) => path_under(q, p@),
        FilesystemPermission::ReadPath(p) => !write && path_under(q, p@),
        FilesystemPermission::WritePath(p) => write && path_under(q, p@),
    }
}

/// Some grant lets the guest read (`write` false) or write `q`.
pub open spec fn fs_allowed(grants: Seq<Permission>, q: Seq<char>, write: bool) -> bool {
    exists|i: int| 0 <= i < grants.len() && (#[trigger] grants[i] matches Permission::Filesystem(g) && grant_allows(g, q, write))
}

/// The request for reading (`write` false) or writing `s`.
pub open spec fn fs_request(s: String, write: bool) -> Permission {
    if write {
        Permission::Filesystem(FilesystemPermission::WritePath(s))
    } else {
        Permission::Filesystem(FilesystemPermission::ReadPath(s))
    }
}

proof fn lemma_fs_request(grants: Seq<Permission>, s: String, write: bool)
    ensures
        granted(grants, fs_request(s, write)) <==> fs_allowed(grants, s@, write),
{
    if granted(grants, fs_request(s, write)) {
        let i = choose|i: int| 0 <= i < grants.len() && covers(#[trigger] grants[i], fs_request(s, write));
        assert(grants[i] matches Permission::Filesystem(g) && grant_allows(g, s@, write));
    }
    if fs_allowed(grants, s@, write) {
        let i = choose|i: int| 0 <= i < grants.len() && (#[trigger] grants[i] matches Permission::Filesystem(g) && grant_allows(g, s@, write));
        assert(covers(grants[i], fs_request(s, write)));
    }
}

/// The path of a `File` argument that the sandbox lets the guest read
/// (`write` false) or write: a non-`File` throws `NullPointerException`, a
/// refused path `SecurityException`.
pub fn checked_file_path(vm: &mut Vm, v: JValue, write: bool) -> (r: Result<String, NatErr>)
    requires
        old(vm).wf(),
    ensures
        nat_post(old(vm), final(vm)),
        r is Ok <==> (file_of(old(vm), v) matches Some(p) && fs_allowed(old(vm).perms@, p, write)),
        r matches Ok(s) ==> file_of(old(vm), v) == Some(s@) && *final(vm) == *old(vm),
        r is Err ==> r->Err_0 is Throw,
{
    let path = file_path(vm, v)?;
    let p = if write {
        Permission::Filesystem(FilesystemPermission::WritePath(path.clone()))
    } else {
        Permission::Filesystem(FilesystemPermission::ReadPath(path.clone()))
    };
    proof {
        lemma_fs_request(vm.perms@, path, write);
        assert(p == fs_request(path, write));
    }
    check_native_permission(vm, &p)?;
    Ok(path)
}

/// `this` is a `File` that now holds `path`, every other object unchanged.
pub open spec fn file_set(old_vm: &Vm, vm: &Vm, this: JValue, path: Seq<char>) -> bool {
    &&& file_of(old_vm, this) is Some
    &&& only_changed(old_vm, vm, this)
    &&& file_of(vm, this) == Some(path)
}

/// Points the `File` `this` at `path`; a non-`File` throws
/// `NullPointerException`.
fn set_file(vm: &mut Vm, this: JValue, path: String) -> (r: R)
    requires
        old(vm).wf(),
    ensures
        nat_post(old(vm), final(vm)),
        r is Ok <==> file_of(old(vm), this) is Some,
        r is Ok ==> r == Ok::<JValue, NatErr>(JValue::Null) && file_set(old(vm), final(vm), this, path@),
        r is Err ==> r->Err_0 is Throw,
{
    let is_file = match payload(vm, this) {
        Some(Native::File { .. }) => true,
        _ => false,
    };
    match this {
        JValue::Obj(id) => {
            if is_file {
                set_payload(vm, id, Native::File { path });
                return Ok(JValue::Null);
            }
        },
        _ => {},
    }
    Err(npe(vm))
}

/// `File.<init>(String)`: the file at that path; a null or non-string path
/// throws `NullPointerException`.
pub fn file_init_string(vm: &mut Vm, args: &[JValue]) -> (r: R)
    requires
        old(vm).wf(),
        args@.len() >= 2,
    ensures
        nat_post(old(vm), final(vm)),
        r is Ok <==> text_of(old(vm), args@[1]) is Some && file_of(old(vm), args@[0]) is Some,
        r is Ok ==> r == Ok::<JValue, NatErr>(JValue::Null)
            && file_set(old(vm), final(vm), args@[0], text_of(old(vm), args@[1])->Some_0),
        r is Err ==> r->Err_0 is Throw,
{
    let path = jstr(vm, args[1])?;
    set_file(vm, args[0], path)
}

/// `File.<init>(File, String)`: the child path joined onto the parent's.
pub fn file_init_parent_string(vm: &mut Vm, args: &[JValue]) -> (r: R)
    requires
        old(vm).wf(),
        args@.len() >= 3,
    ensures
        nat_post(old(vm), final(vm)),
        r is Ok <==> file_of(old(vm), args@[1]) is Some && text_of(old(vm), args@[2]) is Some
            && file_of(old(vm), args@[0]) is Some,
        r is Ok ==> r == Ok::<JValue, NatErr>(JValue::Null) && file_set(old(vm), final(vm), args@[0],
            path_join(file_of(old(vm), args@[1])->Some_0, text_of(old(vm), args@[2])->Some_0)),
        r is Err ==> r->Err_0 is Throw,
{
    let parent = file_path(vm, args[1])?;
    let child = jstr(vm, args[2])?;
    let path = join_path(parent.as_str(), child.as_str());
    set_file(vm, args[0], path)
}

/// `File.<init>(String, String)`: the child path joined onto the parent.
pub fn file_init_parent_strings(vm: &mut Vm, args: &[JValue]) -> (r: R)
    requires
        old(vm).wf(),
        args@.len() >= 3,
    ensures
        nat_post(old(vm), final(vm)),
        r is Ok <==> text_of(old(vm), args@[1]) is Some && text_of(old(vm), args@[2]) is Some
            && file_of(old(vm), args@[0]) is Some,
        r is Ok ==> r == Ok::<JValue, NatErr>(JValue::Null) && file_set(old(vm), final(vm), args@[0],
            path_join(text_of(old(vm), args@[1])->Some_0, text_of(old(vm), args@[2])->Some_0)),
        r is Err ==> r->Err_0 is Throw,
{
    let parent = jstr(vm, args[1])?;
    let child = jstr(vm, args[2])?;
    let path = join_path(parent.as_str(), child.as_str());
    set_file(vm, args[0], path)
}

/// `File.getPath()`: the path, as a string.
pub fn file_get_path(vm: &mut Vm, args: &[JValue]) -> (r: R)
    requires
        old(vm).wf(),
        args@.len() >= 1,
    ensures
        nat_post(old(vm), final(vm)),
        r is Ok <==> file_of(old(vm), args@[0]) is Some,
        r matches Ok(v) ==> str_result(old(vm), final(vm), v, file_of(old(vm), args@[0])->Some_0),
        r is Err ==> r->Err_0 is Throw,
{
    let path = file_path(vm, args[0])?;
    Ok(new_str(vm, path.as_str()))
}

/// `File.getName()`: the last component of the path (empty when there is
/// none).
pub fn file_get_name(vm: &mut Vm, args: &[JValue]) -> (r: R)
    requires
        old(vm).wf(),
        args@.len() >= 1,
    ensures
        nat_post(old(vm), final(vm)),
        r is Ok <==> file_of(old(vm), args@[0]) is Some,
        r matches Ok(v) ==> str_result(old(vm), final(vm), v, match path_file_name(file_of(old(vm), args@[0])->Some_0) {
            Some(n) => n,
            None => Seq::<char>::empty(),
        }),
        r is Err ==> r->Err_0 is Throw,
{
    let path = file_path(vm, args[0])?;
    let name = match std_file_name(path.as_str()) {
        Some(n) => n,
        None => String::new(),
    };
    Ok(new_str(vm, name.as_str()))
}

/// `File.getParent()`: the path without its last component, or null when
/// there is no parent.
pub fn file_get_parent(vm: &mut Vm, args: &[JValue]) -> (r: R)
    requires
        old(vm).wf(),
        args@.len() >= 1,
    ensures
        nat_post(old(vm), final(vm)),
        r is Ok <==> file_of(old(vm), args@[0]) is Some,
        r matches Ok(v) ==> match path_parent(file_of(old(vm), args@[0])->Some_0) {
            Some(p) => str_result(old(vm), final(vm), v, p),
            None => v == JValue::Null && *final(vm) == *old(vm),
        },
        r is Err ==> r->Err_0 is Throw,
{
    let path = file_path(vm, args[0])?;
    match std_parent(path.as_str()) {
        Some(p) => Ok(new_str(vm, p.as_str())),
        None => Ok(JValue::Null),
    }
}

/// `File.getParentFile()`: a new `File` for the parent path, or null when
/// there is no parent.
pub fn file_get_parent_file(vm: &mut Vm, args: &[JValue]) -> (r: R)
    requires
        old(vm).wf(),
        args@.len() >= 1,
    ensures
        nat_post(old(vm), final(vm)),
        file_of(old(vm), args@[0]) is None ==> r matches Err(NatErr::Throw(_)),
        r matches Ok(v) ==> file_of(old(vm), args@[0]) is Some && match path_parent(file_of(old(vm), args@[0])->Some_0) {
            Some(p) => exists|s: String| s@ == p && #[trigger] fresh_obj(old(vm), final(vm), v, "Ljava/io/File;"@, Native::File { path: s }),
            None => v == JValue::Null && *final(vm) == *old(vm),
        },
        r matches Err(e) ==> file_of(old(vm), args@[0]) is None || e is Fatal,
{
    let path = file_path(vm, args[0])?;
    match std_parent(path.as_str()) {
        Some(p) => {
            let ghost s = p;
            let r = new_object(vm, "Ljava/io/File;", Native::File { path: p });
            proof {
                if r is Ok {
                    assert(fresh_obj(old(vm), final(vm), r->Ok_0, "Ljava/io/File;"@, Native::File { path: s }));
                }
            }
            r
        },
        None => Ok(JValue::Null),
    }
}

/// `FilesKt.resolve(File, String)`: a new `File` for the child joined onto
/// the base (a null or non-string child counts as empty).
pub fn fileskt_resolve(vm: &mut Vm, args: &[JValue]) -> (r: R)
    requires
        old(vm).wf(),
        args@.len() >= 2,
    ensures
        nat_post(old(vm), final(vm)),
        file_of(old(vm), args@[0]) is None ==> r matches Err(NatErr::Throw(_)),
        r matches Ok(v) ==> file_of(old(vm), args@[0]) is Some && exists|s: String| #![trigger fresh_obj(old(vm), final(vm), v, "Ljava/io/File;"@, Native::File { path: s })]
            s@ == path_join(file_of(old(vm), args@[0])->Some_0, match text_of(old(vm), args@[1]) {
                Some(c) => c,
                None => Seq::<char>::empty(),
            }) && fresh_obj(old(vm), final(vm), v, "Ljava/io/File;"@, Native::File { path: s }),
        r matches Err(e) ==> file_of(old(vm), args@[0]) is None || e is Fatal,
{
    let base = file_path(vm, args[0])?;
    let child = match payload(vm, args[1]) {
        Some(Native::Str(c)) => to_owned_string(c.as_str()),
        _ => String::new(),
    };
    let joined = join_path(base.as_str(), child.as_str());
    let ghost s = joined;
    let r = new_object(vm, "Ljava/io/File;", Native::File { path: joined });
    proof {
        if r is Ok {
            assert(fresh_obj(old(vm), final(vm), r->Ok_0, "Ljava/io/File;"@, Native::File { path: s }));
        }
    }
    r
}

} // verus!
