//! Sandbox capabilities: what a host native may touch, and which grants
//! cover which requests.

use vstd::prelude::*;

use crate::error::JvmError;
use crate::value::{concat, to_owned_string};
use crate::vm::Vm;

verus! {

/// Filesystem access, for the whole filesystem or below a path.
#[derive(Debug, Clone, PartialEq, Eq)]
pub enum FilesystemPermission {
    Any,
    /// Reading and writing below a path.
    Path(String),
    ReadPath(String),
    WritePath(String),
}

/// A host capability that natives check before side effects.
#[derive(Debug, Clone, PartialEq, Eq)]
pub enum Permission {
    Network,
    Filesystem(FilesystemPermission),
    Process,
    Env,
}

/// Path `q` is `p` or lies below it.
pub open spec fn path_under(q: Seq<char>, p: Seq<char>) -> bool {
    q == p || (p.len() < q.len() && q.subrange(0, p.len() as int) == p && (
        (p.len() > 0 && p.last() == '/') || q[p.len() as int] == '/'))
}

/// Filesystem grant `g` covers request `r`.
pub open spec fn fs_covers(g: FilesystemPermission, r: FilesystemPermission) -> bool {
    match g {
        FilesystemPermission::Any => true,
        FilesystemPermission::Path(p) => match r {
            FilesystemPermission::Any => false,
            FilesystemPermission::Path(q) => path_under(q@, p@),
            FilesystemPermission::ReadPath(q) => path_under(q@, p@),
            FilesystemPermission::WritePath(q) => path_under(q@, p@),
        },
        FilesystemPermission::ReadPath(p) => r matches FilesystemPermission::ReadPath(q) && path_under(q@, p@),
        FilesystemPermission::WritePath(p) => r matches FilesystemPermission::WritePath(q) && path_under(q@, p@),
    }
}

/// Grant `g` covers request `r`.
pub open spec fn covers(g: Permission, r: Permission) -> bool {
    match (g, r) {
        (Permission::Network, Permission::Network) => true,
        (Permission::Process, Permission::Process) => true,
        (Permission::Env, Permission::Env) => true,
        (Permission::Filesystem(a), Permission::Filesystem(b)) => fs_covers(a, b),
        _ => false,
    }
}

/// Some grant in `grants` covers `r`.
pub open spec fn granted(grants: Seq<Permission>, r: Permission) -> bool {
    exists|i: int| 0 <= i < grants.len() && covers(#[trigger] grants[i], r)
}

/// Whether `q` is `p` or below it.
fn is_under(q: &str, p: &str) -> (r: bool)
    ensures
        r == path_under(q@, p@),
{
    let qn = q.unicode_len();
    let pn = p.unicode_len();
    if qn == pn {
        return crate::value::str_eq(q, p);
    }
    if pn >= qn {
        return false;
    }
    let mut i: usize = 0;
    while i < pn
        invariant
            pn == p@.len(),
            qn == q@.len(),
            pn < qn,
            i <= pn,
            forall|j: int| 0 <= j < i ==> q@[j] == p@[j],
        decreases pn - i,
    {
        if q.get_char(i) != p.get_char(i) {
            proof {
                assert(q@.subrange(0, pn as int)[i as int] != p@[i as int]);
            }
            return false;
        }
        i += 1;
    }
    proof {
        assert(q@.subrange(0, pn as int) =~= p@);
    }
    (pn > 0 && p.get_char(pn - 1) == '/') || q.get_char(pn) == '/'
}

/// Whether filesystem grant `g` covers request `r`.
fn fs_covers_exec(g: &FilesystemPermission, r: &FilesystemPermission) -> (b: bool)
    ensures
        b == fs_covers(*g, *r),
{
    match g {
        FilesystemPermission::Any => true,
        FilesystemPermission::Path(p) => match r {
            FilesystemPermission::Any => false,
            FilesystemPermission::Path(q) => is_under(q.as_str(), p.as_str()),
            FilesystemPermission::ReadPath(q) => is_under(q.as_str(), p.as_str()),
            FilesystemPermission::WritePath(q) => is_under(q.as_str(), p.as_str()),
        },
        FilesystemPermission::ReadPath(p) => match r {
            FilesystemPermission::ReadPath(q) => is_under(q.as_str(), p.as_str()),
            _ => false,
        },
        FilesystemPermission::WritePath(p) => match r {
            FilesystemPermission::WritePath(q) => is_under(q.as_str(), p.as_str()),
            _ => false,
        },
    }
}

/// Whether grant `g` covers request `r`.
pub fn covers_exec(g: &Permission, r: &Permission) -> (b: bool)
    ensures
        b == covers(*g, *r),
{
    match (g, r) {
        (Permission::Network, Permission::Network) => true,
        (Permission::Process, Permission::Process) => true,
        (Permission::Env, Permission::Env) => true,
        (Permission::Filesystem(a), Permission::Filesystem(b)) => fs_covers_exec(a, b),
        _ => false,
    }
}

/// What `{:?}` writes for a string: the text between double quotes, with
/// `"`, `\` and the characters that `char::escape_debug` escapes written
/// as escapes.
pub uninterp spec fn str_debug(s: Seq<char>) -> Seq<char>;

/// A string's `Debug` text (`format!("{:?}", s)`), as a path shows in a
/// permission's description. For text of printable ASCII other than `"` and
/// `\` that is the text between double quotes.
#[verifier::external_body]
fn debug_text(s: &str) -> (r: String)
    ensures
        r@ == str_debug(s@),
        (forall|i: int| 0 <= i < s@.len() ==> ' ' <= #[trigger] s@[i] <= '~' && s@[i] != '"' && s@[i] != '\\')
            ==> r@ == seq!['"'] + s@ + seq!['"'],
{
    format!("{:?}", s)
}

/// The description of a filesystem permission.
pub open spec fn fs_text(f: FilesystemPermission) -> Seq<char> {
    match f {
        FilesystemPermission::Any => "Any"@,
        FilesystemPermission::Path(p) => "Path("@ + str_debug(p@) + ")"@,
        FilesystemPermission::ReadPath(p) => "ReadPath("@ + str_debug(p@) + ")"@,
        FilesystemPermission::WritePath(p) => "WritePath("@ + str_debug(p@) + ")"@,
    }
}

/// The description of a permission, as it reads in a refusal: its
/// `Debug` text.
pub open spec fn permission_text(p: Permission) -> Seq<char> {
    match p {
        Permission::Network => "Network"@,
        Permission::Filesystem(f) => "Filesystem("@ + fs_text(f) + ")"@,
        Permission::Process => "Process"@,
        Permission::Env => "Env"@,
    }
}

/// Text of `f` as [`fs_text`] gives it.
fn fs_describe(f: &FilesystemPermission) -> (r: String)
    ensures
        r@ == fs_text(*f),
{
    let (head, path) = match f {
        FilesystemPermission::Any => return to_owned_string("Any"),
        FilesystemPermission::Path(p) => ("Path(", p),
        FilesystemPermission::ReadPath(p) => ("ReadPath(", p),
        FilesystemPermission::WritePath(p) => ("WritePath(", p),
    };
    let q = debug_text(path.as_str());
    let a = concat(head, q.as_str());
    let r = concat(a.as_str(), ")");
    proof {
        assert(r@ =~= fs_text(*f));
    }
    r
}

impl Permission {
    /// Text of the permission as [`permission_text`] gives it.
    pub fn describe(&self) -> (r: String)
        ensures
            r@ == permission_text(*self),
    {
        match self {
            Permission::Network => to_owned_string("Network"),
            Permission::Process => to_owned_string("Process"),
            Permission::Env => to_owned_string("Env"),
            Permission::Filesystem(f) => {
                let t = fs_describe(f);
                let a = concat("Filesystem(", t.as_str());
                concat(a.as_str(), ")")
            },
        }
    }
}

impl Vm {
    /// Does the current grant set cover `p`?
    pub fn has_permission(&self, p: &Permission) -> (r: bool)
        ensures
            r == granted(self.perms@, *p),
    {
        let mut i: usize = 0;
        while i < self.perms.len()
            invariant
                i <= self.perms@.len(),
                forall|j: int| 0 <= j < i ==> !covers(#[trigger] self.perms@[j], *p),
            decreases self.perms@.len() - i,
        {
            if covers_exec(&self.perms[i], p) {
                return true;
            }
            i += 1;
        }
        false
    }

    /// `Ok` when `p` is granted; otherwise a resolution failure naming it,
    /// "permission denied: ...". Host natives call this before host side
    /// effects.
    pub fn check_permission(&self, p: &Permission) -> (r: Result<(), JvmError>)
        ensures
            r is Ok <==> granted(self.perms@, *p),
            r matches Err(e) ==> e matches JvmError::Resolution(m) && m@ == "permission denied: "@ + permission_text(*p),
    {
        if self.has_permission(p) {
            Ok(())
        } else {
            let d = p.describe();
            Err(JvmError::Resolution(concat("permission denied: ", d.as_str())))
        }
    }

    /// Adds `p` to the grant set.
    pub fn grant(&mut self, p: Permission)
        ensures
            final(self).perms@ == old(self).perms@.push(p),
            *final(self) == (Vm { perms: final(self).perms, ..*old(self) }),
    {
        self.perms.push(p);
    }
}

} // verus!
