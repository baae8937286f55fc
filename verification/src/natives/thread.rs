//! `java.lang.Thread` host shims: thread objects keep their name, flags and
//! runnable; the guest only ever runs on the one main thread.

use vstd::prelude::*;

use crate::error::NatErr;
use crate::natives::base::kept;
use crate::natives::crypto::{only_changed, text_of};
use crate::natives::{int_of, int_val, iae, jstr, nat_post, new_object, new_str, npe, payload, set_payload, str_result, R};
use crate::object::Native;
use crate::value::{to_owned_string, JValue};
use crate::vm::{payload_spec, Vm};

verus! {

/// Name, runnable, started, alive, daemon and interrupted flags of a
/// `Thread` value.
pub open spec fn thread_of(vm: &Vm, v: JValue) -> Option<(Seq<char>, JValue, bool, bool, bool, bool)> {
    match payload_spec(vm, v) {
        Some(Native::Thread { name, runnable, started, alive, daemon, interrupted }) =>
            Some((name@, runnable, started, alive, daemon, interrupted)),
        _ => None,
    }
}

/// `Thread.currentThread()`: a thread object for the main thread, started
/// and alive.
pub fn thread_current(vm: &mut Vm, args: &[JValue]) -> (r: R)
    requires
        old(vm).wf(),
    ensures
        nat_post(old(vm), final(vm)),
        r matches Ok(v) ==> thread_of(final(vm), v) == Some(("main"@, JValue::Null, true, true, false, false)),
        r matches Err(e) ==> e is Fatal,
{
    let n = Native::Thread { name: to_owned_string("main"), runnable: JValue::Null, started: true, alive: true, daemon: false, interrupted: false };
    new_object(vm, "Ljava/lang/Thread;", n)
}

/// The thread fields of `v`; anything else throws `NullPointerException`.
fn thread_fields(vm: &mut Vm, v: JValue) -> (r: Result<(String, JValue, bool, bool, bool, bool), NatErr>)
    requires
        old(vm).wf(),
    ensures
        nat_post(old(vm), final(vm)),
        r matches Ok(t) ==> *final(vm) == *old(vm) && thread_of(old(vm), v) == Some((t.0@, t.1, t.2, t.3, t.4, t.5)),
        r is Err ==> thread_of(old(vm), v) is None && r->Err_0 is Throw,
{
    match payload(vm, v) {
        Some(Native::Thread { name, runnable, started, alive, daemon, interrupted }) =>
            Ok((to_owned_string(name.as_str()), *runnable, *started, *alive, *daemon, *interrupted)),
        _ => Err(npe(vm)),
    }
}

/// Stores thread fields into `this`, a thread.
fn set_thread(vm: &mut Vm, this: JValue, t: (String, JValue, bool, bool, bool, bool))
    requires
        old(vm).wf(),
        thread_of(old(vm), this) is Some,
    ensures
        nat_post(old(vm), final(vm)),
        only_changed(old(vm), final(vm), this),
        thread_of(final(vm), this) == Some((t.0@, t.1, t.2, t.3, t.4, t.5)),
{
    let id = this.as_obj();
    set_payload(vm, id, Native::Thread { name: t.0, runnable: t.1, started: t.2, alive: t.3, daemon: t.4, interrupted: t.5 });
}

/// `Thread.getName()`.
pub fn thread_get_name(vm: &mut Vm, args: &[JValue]) -> (r: R)
    requires
        old(vm).wf(),
        args@.len() >= 1,
    ensures
        nat_post(old(vm), final(vm)),
        r is Ok <==> thread_of(old(vm), args@[0]) is Some,
        r matches Ok(v) ==> str_result(old(vm), final(vm), v, thread_of(old(vm), args@[0])->Some_0.0),
        r is Err ==> r->Err_0 is Throw,
{
    let t = thread_fields(vm, args[0])?;
    Ok(new_str(vm, t.0.as_str()))
}

/// `Thread.getId()`: every thread reports id 1.
pub fn thread_get_id(vm: &mut Vm, args: &[JValue]) -> (r: R)
    ensures
        kept(old(vm), final(vm), r, JValue::Long(1)),
{
    Ok(JValue::Long(1))
}

/// `Thread.interrupted()`: the main thread is never interrupted.
pub fn thread_interrupted(vm: &mut Vm, args: &[JValue]) -> (r: R)
    ensures
        kept(old(vm), final(vm), r, JValue::Int(0)),
{
    Ok(JValue::Int(0))
}

/// `Thread.isAlive()`.
pub fn thread_is_alive(vm: &mut Vm, args: &[JValue]) -> (r: R)
    requires
        old(vm).wf(),
        args@.len() >= 1,
    ensures
        nat_post(old(vm), final(vm)),
        r is Ok <==> thread_of(old(vm), args@[0]) is Some,
        r is Ok ==> kept(old(vm), final(vm), r, JValue::Int(if thread_of(old(vm), args@[0])->Some_0.3 { 1i32 } else { 0i32 })),
        r is Err ==> r->Err_0 is Throw,
{
    let t = thread_fields(vm, args[0])?;
    Ok(JValue::Int(if t.3 { 1 } else { 0 }))
}

/// `Thread.isDaemon()`.
pub fn thread_is_daemon(vm: &mut Vm, args: &[JValue]) -> (r: R)
    requires
        old(vm).wf(),
        args@.len() >= 1,
    ensures
        nat_post(old(vm), final(vm)),
        r is Ok <==> thread_of(old(vm), args@[0]) is Some,
        r is Ok ==> kept(old(vm), final(vm), r, JValue::Int(if thread_of(old(vm), args@[0])->Some_0.4 { 1i32 } else { 0i32 })),
        r is Err ==> r->Err_0 is Throw,
{
    let t = thread_fields(vm, args[0])?;
    Ok(JValue::Int(if t.4 { 1 } else { 0 }))
}

/// `Thread.isInterrupted()`.
pub fn thread_is_interrupted(vm: &mut Vm, args: &[JValue]) -> (r: R)
    requires
        old(vm).wf(),
        args@.len() >= 1,
    ensures
        nat_post(old(vm), final(vm)),
        r is Ok <==> thread_of(old(vm), args@[0]) is Some,
        r is Ok ==> kept(old(vm), final(vm), r, JValue::Int(if thread_of(old(vm), args@[0])->Some_0.5 { 1i32 } else { 0i32 })),
        r is Err ==> r->Err_0 is Throw,
{
    let t = thread_fields(vm, args[0])?;
    Ok(JValue::Int(if t.5 { 1 } else { 0 }))
}

/// `Thread.setName(String)`.
pub fn thread_set_name(vm: &mut Vm, args: &[JValue]) -> (r: R)
    requires
        old(vm).wf(),
        args@.len() >= 2,
    ensures
        nat_post(old(vm), final(vm)),
        r is Ok <==> text_of(old(vm), args@[1]) is Some && thread_of(old(vm), args@[0]) is Some,
        r is Ok ==> r == Ok::<JValue, NatErr>(JValue::Null) && only_changed(old(vm), final(vm), args@[0]) && ({
            let t = thread_of(old(vm), args@[0])->Some_0;
            thread_of(final(vm), args@[0]) == Some((text_of(old(vm), args@[1])->Some_0, t.1, t.2, t.3, t.4, t.5))
        }),
        r is Err ==> r->Err_0 is Throw,
{
    let name = jstr(vm, args[1])?;
    let t = thread_fields(vm, args[0])?;
    set_thread(vm, args[0], (name, t.1, t.2, t.3, t.4, t.5));
    Ok(JValue::Null)
}

/// `Thread.setDaemon(boolean)`: refused with `IllegalArgumentException`
/// while the thread is alive.
pub fn thread_set_daemon(vm: &mut Vm, args: &[JValue]) -> (r: R)
    requires
        old(vm).wf(),
        args@.len() >= 2,
    ensures
        nat_post(old(vm), final(vm)),
        r is Ok <==> (thread_of(old(vm), args@[0]) matches Some(t) && !t.3),
        r is Ok ==> r == Ok::<JValue, NatErr>(JValue::Null) && only_changed(old(vm), final(vm), args@[0]) && ({
            let t = thread_of(old(vm), args@[0])->Some_0;
            thread_of(final(vm), args@[0]) == Some((t.0, t.1, t.2, t.3, int_val(old(vm), args@[1]) != 0, t.5))
        }),
        r is Err ==> r->Err_0 is Throw,
{
    let daemon = int_of(vm, args[1]) != 0;
    let t = thread_fields(vm, args[0])?;
    if t.3 {
        return Err(iae(vm, "cannot change daemon status of an active thread"));
    }
    set_thread(vm, args[0], (t.0, t.1, t.2, t.3, daemon, t.5));
    Ok(JValue::Null)
}

/// `Thread.interrupt()`: sets the interrupted flag.
pub fn thread_interrupt(vm: &mut Vm, args: &[JValue]) -> (r: R)
    requires
        old(vm).wf(),
        args@.len() >= 1,
    ensures
        nat_post(old(vm), final(vm)),
        r is Ok <==> thread_of(old(vm), args@[0]) is Some,
        r is Ok ==> r == Ok::<JValue, NatErr>(JValue::Null) && only_changed(old(vm), final(vm), args@[0]) && ({
            let t = thread_of(old(vm), args@[0])->Some_0;
            thread_of(final(vm), args@[0]) == Some((t.0, t.1, t.2, t.3, t.4, true))
        }),
        r is Err ==> r->Err_0 is Throw,
{
    let t = thread_fields(vm, args[0])?;
    set_thread(vm, args[0], (t.0, t.1, t.2, t.3, t.4, true));
    Ok(JValue::Null)
}

} // verus!
