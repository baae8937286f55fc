//! `javax.crypto` shims: AES ciphers (GCM, CBC, ECB), secret keys and
//! parameter specs, password-based key derivation and MACs.

use vstd::prelude::*;

use crate::cipher::{aes_block_mode, block_mode_result, has_sub, str_contains};
use crate::gcm::{gcm_h, open_spec, seal_spec};
use crate::natives::ioobe;
use crate::digest::{ascii_upper, key_bytes, mac_compute, mac_spec, pbkdf2_compute, pbkdf2_spec, upper};
use crate::error::NatErr;
use crate::gcm::Gcm;
use crate::host::unsigned_bytes;
use crate::natives::{fresh_obj, iae, int_of, int_val, jstr, nat_post, new_object, new_str, npe, payload, set_payload, R};
use crate::object::{ArrayData, Native};
use crate::value::{concat, str_eq, to_owned_string, JValue};
use crate::vm::{payload_spec, Vm};

verus! {

/// The bytes of a `byte[]` value.
pub open spec fn byte_array_of(vm: &Vm, v: JValue) -> Option<Seq<u8>> {
    match payload_spec(vm, v) {
        Some(Native::Array(ArrayData::Byte(bs))) => Some(unsigned_bytes(bs@)),
        _ => None,
    }
}

/// The bytes of a `byte[]` value, `None` for anything else.
pub fn bytes_of(vm: &Vm, v: JValue) -> (r: Option<Vec<u8>>)
    ensures
        r matches Some(b) ==> byte_array_of(vm, v) == Some(b@),
        r is None ==> byte_array_of(vm, v) is None,
{
    match payload(vm, v) {
        Some(Native::Array(ArrayData::Byte(bs))) => {
            let mut out: Vec<u8> = Vec::new();
            let mut i: usize = 0;
            while i < bs.len()
                invariant
                    i <= bs@.len(),
                    out@ == unsigned_bytes(bs@.take(i as int)),
                decreases bs@.len() - i,
            {
                out.push(#[verifier::truncate] (bs[i] as u8));
                proof {
                    assert(bs@.take(i + 1) =~= bs@.take(i as int).push(bs@[i as int]));
                    assert(out@ =~= unsigned_bytes(bs@.take(i + 1)));
                }
                i += 1;
            }
            proof {
                assert(bs@.take(bs@.len() as int) =~= bs@);
            }
            Some(out)
        },
        _ => None,
    }
}

/// The signed Java bytes of a byte sequence.
pub open spec fn signed_bytes(b: Seq<u8>) -> Seq<i8> {
    b.map_values(|x: u8| x as i8)
}

pub proof fn lemma_signed_unsigned(b: Seq<u8>)
    ensures
        unsigned_bytes(signed_bytes(b)) == b,
{
    assert forall|i: int| 0 <= i < b.len() implies #[trigger] unsigned_bytes(signed_bytes(b))[i] == b[i] by {
        let x = b[i];
        assert((x as i8) as u8 == x) by (bit_vector);
    }
    assert(unsigned_bytes(signed_bytes(b)) =~= b);
}

/// The signed Java bytes of `bytes`.
pub fn signed_vec(bytes: &Vec<u8>) -> (r: Vec<i8>)
    ensures
        r@ == signed_bytes(bytes@),
{
    let mut data: Vec<i8> = Vec::new();
    let mut i: usize = 0;
    while i < bytes.len()
        invariant
            i <= bytes@.len(),
            data@ == signed_bytes(bytes@.take(i as int)),
        decreases bytes@.len() - i,
    {
        data.push(#[verifier::truncate] (bytes[i] as i8));
        proof {
            assert(bytes@.take(i + 1) =~= bytes@.take(i as int).push(bytes@[i as int]));
            assert(data@ =~= signed_bytes(bytes@.take(i + 1)));
        }
        i += 1;
    }
    proof {
        assert(bytes@.take(bytes@.len() as int) =~= bytes@);
    }
    data
}

/// A new `byte[]` holding `bytes`.
pub fn new_byte_array(vm: &mut Vm, bytes: &Vec<u8>) -> (r: R)
    requires
        old(vm).wf(),
    ensures
        nat_post(old(vm), final(vm)),
        r matches Ok(v) ==> exists|n: Native| #[trigger] fresh_obj(old(vm), final(vm), v, "[B"@, n)
            && byte_array_of(final(vm), v) == Some(bytes@),
        r matches Err(e) ==> e is Fatal,
{
    let mut data: Vec<i8> = Vec::new();
    let mut i: usize = 0;
    while i < bytes.len()
        invariant
            i <= bytes@.len(),
            data@ == signed_bytes(bytes@.take(i as int)),
        decreases bytes@.len() - i,
    {
        data.push(#[verifier::truncate] (bytes[i] as i8));
        proof {
            assert(bytes@.take(i + 1) =~= bytes@.take(i as int).push(bytes@[i as int]));
            assert(data@ =~= signed_bytes(bytes@.take(i + 1)));
        }
        i += 1;
    }
    proof {
        assert(bytes@.take(bytes@.len() as int) =~= bytes@);
        lemma_signed_unsigned(bytes@);
    }
    let ghost n = Native::Array(ArrayData::Byte(data));
    new_object(vm, "[B", Native::Array(ArrayData::Byte(data)))
}

/// The id of the receiver object, or a thrown `NullPointerException`.
fn receiver(vm: &mut Vm, v: JValue) -> (r: Result<u32, NatErr>)
    requires
        old(vm).wf(),
    ensures
        nat_post(old(vm), final(vm)),
        r matches Ok(id) ==> v == JValue::Obj(id) && (id as int) < old(vm).arena.objects@.len() && *final(vm) == *old(vm),
        r is Err ==> !(v matches JValue::Obj(id) && (id as int) < old(vm).arena.objects@.len()) && r->Err_0 is Throw,
{
    match v {
        JValue::Obj(id) => {
            if (id as usize) < vm.arena.objects.len() {
                return Ok(id);
            }
        },
        _ => {},
    }
    Err(npe(vm))
}

/// Only the object `v` refers to may have changed.
pub open spec fn only_changed(old_vm: &Vm, vm: &Vm, v: JValue) -> bool {
    &&& v is Obj
    &&& (v->Obj_0 as int) < old_vm.arena.objects@.len()
    &&& vm.arena.objects@.len() == old_vm.arena.objects@.len()
    &&& forall|j: int| 0 <= j < old_vm.arena.objects@.len() && j != v->Obj_0 ==> vm.arena.objects@[j] == old_vm.arena.objects@[j]
}

/// The key bytes a `Key` value holds.
pub open spec fn key_of(vm: &Vm, v: JValue) -> Option<Seq<u8>> {
    match payload_spec(vm, v) {
        Some(Native::Key(k)) => Some(k@),
        _ => None,
    }
}

/// The tag length and IV a parameter spec holds.
pub open spec fn param_of(vm: &Vm, v: JValue) -> Option<(i32, Seq<u8>)> {
    match payload_spec(vm, v) {
        Some(Native::GcmSpec { tag_bits, iv }) => Some((tag_bits, iv@)),
        _ => None,
    }
}

/// A cipher's transformation, mode, key, IV, tag length and AAD.
pub open spec fn cipher_of(vm: &Vm, v: JValue) -> Option<(Seq<char>, u8, Seq<u8>, Seq<u8>, usize, Seq<u8>)> {
    match payload_spec(vm, v) {
        Some(Native::CipherState { transformation, mode, key, iv, tag_bits, aad }) => Some((transformation@, mode, key@, iv@, tag_bits, aad@)),
        _ => None,
    }
}

/// The text a `String` value holds.
pub open spec fn text_of(vm: &Vm, v: JValue) -> Option<Seq<char>> {
    match payload_spec(vm, v) {
        Some(Native::Str(s)) => Some(s@),
        _ => None,
    }
}

/// The transformations a `Cipher` supports.
pub open spec fn supported(t: Seq<char>) -> bool {
    ||| t == "AES/GCM/NOPADDING"@
    ||| t == "AES/CBC/PKCS5PADDING"@
    ||| t == "AES/CBC/PKCS7PADDING"@
    ||| t == "AES/CBC/NOPADDING"@
    ||| t == "AES/ECB/PKCS5PADDING"@
    ||| t == "AES/ECB/PKCS7PADDING"@
    ||| t == "AES/ECB/NOPADDING"@
}

/// The transformation `Cipher.getInstance(name)` stands for: the upper-case
/// name, with plain `AES` meaning ECB with PKCS#5 padding.
pub open spec fn transformation_of(name: Seq<char>) -> Seq<char> {
    if upper(name) == "AES"@ { "AES/ECB/PKCS5PADDING"@ } else { upper(name) }
}

/// `Cipher.getInstance(String)`: an uninitialised cipher for a supported
/// transformation; `IllegalArgumentException` for any other.
pub fn cipher_get_instance(vm: &mut Vm, args: &[JValue]) -> (r: R)
    requires
        old(vm).wf(),
        args@.len() >= 1,
    ensures
        nat_post(old(vm), final(vm)),
        r is Ok ==> text_of(old(vm), args@[0]) is Some && supported(transformation_of(text_of(old(vm), args@[0])->Some_0))
            && (exists|n: Native| #[trigger] fresh_obj(old(vm), final(vm), r->Ok_0, "Ljavax/crypto/Cipher;"@, n))
            && cipher_of(final(vm), r->Ok_0) == Some((transformation_of(text_of(old(vm), args@[0])->Some_0), 0u8,
                Seq::<u8>::empty(), Seq::<u8>::empty(), 0usize, Seq::<u8>::empty())),
        text_of(old(vm), args@[0]) is Some && !supported(transformation_of(text_of(old(vm), args@[0])->Some_0))
            ==> r matches Err(NatErr::Throw(_)),
{
    let name = jstr(vm, args[0])?;
    let up = ascii_upper(name.as_str());
    proof {
        reveal_strlit("AES");
    }
    let t = if str_eq(up.as_str(), "AES") { to_owned_string("AES/ECB/PKCS5PADDING") } else { up };
    let ok = str_eq(t.as_str(), "AES/GCM/NOPADDING") || str_eq(t.as_str(), "AES/CBC/PKCS5PADDING")
        || str_eq(t.as_str(), "AES/CBC/PKCS7PADDING") || str_eq(t.as_str(), "AES/CBC/NOPADDING")
        || str_eq(t.as_str(), "AES/ECB/PKCS5PADDING") || str_eq(t.as_str(), "AES/ECB/PKCS7PADDING")
        || str_eq(t.as_str(), "AES/ECB/NOPADDING");
    if !ok {
        let msg = concat("unsupported Cipher transformation ", t.as_str());
        return Err(iae(vm, msg.as_str()));
    }
    let st = Native::CipherState { transformation: t, mode: 0, key: Vec::new(), iv: Vec::new(), tag_bits: 0, aad: Vec::new() };
    let ghost n = st;
    let r = new_object(vm, "Ljavax/crypto/Cipher;", st);
    proof {
        if r is Ok {
            assert(fresh_obj(old(vm), final(vm), r->Ok_0, "Ljavax/crypto/Cipher;"@, n));
        }
    }
    r
}

/// `SecretKeySpec.<init>(byte[], String)`: the receiver becomes a key with
/// those bytes.
pub fn secret_key_spec_init(vm: &mut Vm, args: &[JValue]) -> (r: R)
    requires
        old(vm).wf(),
        args@.len() >= 3,
    ensures
        nat_post(old(vm), final(vm)),
        r is Ok ==> r == Ok::<JValue, NatErr>(JValue::Null) && byte_array_of(old(vm), args@[1]) is Some
            && only_changed(old(vm), final(vm), args@[0]) && key_of(final(vm), args@[0]) == byte_array_of(old(vm), args@[1]),
        byte_array_of(old(vm), args@[1]) is None ==> r matches Err(NatErr::Throw(_)),
{
    let bytes = match bytes_of(vm, args[1]) {
        Some(b) => b,
        None => return Err(iae(vm, "secret key bytes missing")),
    };
    let _algo = jstr(vm, args[2])?;
    let this = receiver(vm, args[0])?;
    set_payload(vm, this, Native::Key(bytes));
    Ok(JValue::Null)
}

/// `GCMParameterSpec.<init>(int, byte[])`: the receiver carries the tag
/// length and the IV.
pub fn gcm_parameter_spec_init(vm: &mut Vm, args: &[JValue]) -> (r: R)
    requires
        old(vm).wf(),
        args@.len() >= 3,
    ensures
        nat_post(old(vm), final(vm)),
        r is Ok ==> r == Ok::<JValue, NatErr>(JValue::Null) && byte_array_of(old(vm), args@[2]) is Some
            && only_changed(old(vm), final(vm), args@[0])
            && param_of(final(vm), args@[0]) == Some((int_val(old(vm), args@[1]), byte_array_of(old(vm), args@[2])->Some_0)),
        byte_array_of(old(vm), args@[2]) is None ==> r matches Err(NatErr::Throw(_)),
{
    let tag_bits = int_of(vm, args[1]);
    let iv = match bytes_of(vm, args[2]) {
        Some(b) => b,
        None => return Err(iae(vm, "GCM IV bytes missing")),
    };
    let this = receiver(vm, args[0])?;
    set_payload(vm, this, Native::GcmSpec { tag_bits, iv });
    Ok(JValue::Null)
}

/// `IvParameterSpec.<init>(byte[])`: the receiver carries the IV.
pub fn iv_parameter_spec_init(vm: &mut Vm, args: &[JValue]) -> (r: R)
    requires
        old(vm).wf(),
        args@.len() >= 2,
    ensures
        nat_post(old(vm), final(vm)),
        r is Ok ==> r == Ok::<JValue, NatErr>(JValue::Null) && byte_array_of(old(vm), args@[1]) is Some
            && only_changed(old(vm), final(vm), args@[0])
            && param_of(final(vm), args@[0]) == Some((0i32, byte_array_of(old(vm), args@[1])->Some_0)),
        byte_array_of(old(vm), args@[1]) is None ==> r matches Err(NatErr::Throw(_)),
{
    let iv = match bytes_of(vm, args[1]) {
        Some(b) => b,
        None => return Err(iae(vm, "IV bytes missing")),
    };
    let this = receiver(vm, args[0])?;
    set_payload(vm, this, Native::GcmSpec { tag_bits: 0, iv });
    Ok(JValue::Null)
}

/// A valid AES key length.
pub open spec fn aes_key_len(n: nat) -> bool {
    n == 16 || n == 24 || n == 32
}

/// `Cipher.init(int, Key, AlgorithmParameterSpec)`: records the mode, key,
/// IV and tag length and clears the AAD. The key must be 16, 24 or 32
/// bytes.
pub fn cipher_init(vm: &mut Vm, args: &[JValue]) -> (r: R)
    requires
        old(vm).wf(),
        args@.len() >= 4,
    ensures
        nat_post(old(vm), final(vm)),
        r is Ok ==> r == Ok::<JValue, NatErr>(JValue::Null) && key_of(old(vm), args@[2]) is Some
            && param_of(old(vm), args@[3]) is Some && cipher_of(old(vm), args@[0]) is Some
            && aes_key_len(key_of(old(vm), args@[2])->Some_0.len())
            && only_changed(old(vm), final(vm), args@[0])
            && cipher_of(final(vm), args@[0]) == Some((cipher_of(old(vm), args@[0])->Some_0.0,
                #[verifier::truncate] (int_val(old(vm), args@[1]) as u8), key_of(old(vm), args@[2])->Some_0,
                param_of(old(vm), args@[3])->Some_0.1,
                #[verifier::truncate] (param_of(old(vm), args@[3])->Some_0.0 as usize), Seq::<u8>::empty())),
        key_of(old(vm), args@[2]) is Some && !aes_key_len(key_of(old(vm), args@[2])->Some_0.len())
            && param_of(old(vm), args@[3]) is Some ==> r matches Err(NatErr::Throw(_)),
{
    let mode = int_of(vm, args[1]);
    let key = match payload(vm, args[2]) {
        Some(Native::Key(k)) => crate::cipher::to_vec(k),
        _ => return Err(npe(vm)),
    };
    let (tag_bits, iv) = match payload(vm, args[3]) {
        Some(Native::GcmSpec { tag_bits, iv }) => (*tag_bits, crate::cipher::to_vec(iv)),
        _ => return Err(npe(vm)),
    };
    if !(key.len() == 16 || key.len() == 24 || key.len() == 32) {
        return Err(iae(vm, "AES key must be 16, 24 or 32 bytes"));
    }
    let this = receiver(vm, args[0])?;
    let t = match &vm.arena.objects[this as usize].native {
        Some(Native::CipherState { transformation, .. }) => to_owned_string(transformation.as_str()),
        _ => return Err(npe(vm)),
    };
    set_payload(vm, this, Native::CipherState {
        transformation: t,
        mode: #[verifier::truncate] (mode as u8),
        key,
        iv,
        tag_bits: #[verifier::truncate] (tag_bits as usize),
        aad: Vec::new(),
    });
    Ok(JValue::Null)
}

/// `Cipher.init(int, Key)`: for ECB only (other modes need parameters):
/// records the mode and key and clears the IV and AAD.
pub fn cipher_init_key(vm: &mut Vm, args: &[JValue]) -> (r: R)
    requires
        old(vm).wf(),
        args@.len() >= 3,
    ensures
        nat_post(old(vm), final(vm)),
        r is Ok ==> r == Ok::<JValue, NatErr>(JValue::Null) && key_of(old(vm), args@[2]) is Some
            && aes_key_len(key_of(old(vm), args@[2])->Some_0.len()) && cipher_of(old(vm), args@[0]) is Some
            && has_sub(cipher_of(old(vm), args@[0])->Some_0.0, "/ECB/"@)
            && only_changed(old(vm), final(vm), args@[0])
            && cipher_of(final(vm), args@[0]) == Some((cipher_of(old(vm), args@[0])->Some_0.0,
                #[verifier::truncate] (int_val(old(vm), args@[1]) as u8), key_of(old(vm), args@[2])->Some_0,
                Seq::<u8>::empty(), cipher_of(old(vm), args@[0])->Some_0.4, Seq::<u8>::empty())),
        r is Ok <==> key_of(old(vm), args@[2]) is Some && aes_key_len(key_of(old(vm), args@[2])->Some_0.len())
            && cipher_of(old(vm), args@[0]) is Some && has_sub(cipher_of(old(vm), args@[0])->Some_0.0, "/ECB/"@),
        r is Err ==> r->Err_0 is Throw,
{
    let mode = int_of(vm, args[1]);
    let key = match payload(vm, args[2]) {
        Some(Native::Key(k)) => crate::cipher::to_vec(k),
        _ => return Err(npe(vm)),
    };
    if !(key.len() == 16 || key.len() == 24 || key.len() == 32) {
        return Err(iae(vm, "AES key must be 16, 24 or 32 bytes"));
    }
    let this = receiver(vm, args[0])?;
    let (t, tb) = match &vm.arena.objects[this as usize].native {
        Some(Native::CipherState { transformation, tag_bits, .. }) => (to_owned_string(transformation.as_str()), *tag_bits),
        _ => return Err(npe(vm)),
    };
    proof {
        reveal_strlit("/ECB/");
    }
    if !str_contains(t.as_str(), "/ECB/") {
        return Err(iae(vm, "Cipher mode requires parameters"));
    }
    set_payload(vm, this, Native::CipherState {
        transformation: t,
        mode: #[verifier::truncate] (mode as u8),
        key,
        iv: Vec::new(),
        tag_bits: tb,
        aad: Vec::new(),
    });
    Ok(JValue::Null)
}

/// `Cipher.updateAAD(byte[])`: appends the bytes to the cipher's AAD.
pub fn cipher_update_aad(vm: &mut Vm, args: &[JValue]) -> (r: R)
    requires
        old(vm).wf(),
        args@.len() >= 2,
    ensures
        nat_post(old(vm), final(vm)),
        r is Ok ==> r == Ok::<JValue, NatErr>(JValue::Null) && byte_array_of(old(vm), args@[1]) is Some
            && cipher_of(old(vm), args@[0]) is Some && only_changed(old(vm), final(vm), args@[0])
            && cipher_of(final(vm), args@[0]) == Some({
                let c = cipher_of(old(vm), args@[0])->Some_0;
                (c.0, c.1, c.2, c.3, c.4, c.5 + byte_array_of(old(vm), args@[1])->Some_0)
            }),
        r is Ok <==> byte_array_of(old(vm), args@[1]) is Some && cipher_of(old(vm), args@[0]) is Some,
        r is Err ==> r->Err_0 is Throw,
{
    let bytes = match bytes_of(vm, args[1]) {
        Some(b) => b,
        None => return Err(npe(vm)),
    };
    let this = receiver(vm, args[0])?;
    let st = match &vm.arena.objects[this as usize].native {
        Some(Native::CipherState { transformation, mode, key, iv, tag_bits, aad }) => {
            let mut a = crate::cipher::to_vec(aad);
            crate::gcm::append(&mut a, bytes.as_slice());
            Native::CipherState {
                transformation: to_owned_string(transformation.as_str()),
                mode: *mode,
                key: crate::cipher::to_vec(key),
                iv: crate::cipher::to_vec(iv),
                tag_bits: *tag_bits,
                aad: a,
            }
        },
        _ => return Err(npe(vm)),
    };
    set_payload(vm, this, st);
    Ok(JValue::Null)
}

/// The output of `Cipher.doFinal` for a cipher state on `data`: AES-GCM
/// (32-byte keys only) sealing in mode 1 and opening in mode 2, otherwise
/// the block modes; `None` when the operation fails.
pub open spec fn do_final_spec(c: (Seq<char>, u8, Seq<u8>, Seq<u8>, usize, Seq<u8>), data: Seq<u8>) -> Option<Seq<u8>> {
    let (t, mode, key, iv, _tag, aad) = c;
    if t == "AES/GCM/NOPADDING"@ {
        if key.len() != 32 {
            None
        } else if mode == 2 {
            match open_spec(key, gcm_h(key), iv, aad, data) {
                Ok(p) => Some(p),
                Err(_) => None,
            }
        } else if mode == 1 {
            Some(seal_spec(key, gcm_h(key), iv, aad, data))
        } else {
            None
        }
    } else {
        block_mode_result(t, mode, key, iv, data)
    }
}

/// The clamped input range of `doFinal(input, off, len)`: from `max(off, 0)`
/// to `min(off + len, input length)` with `len` below 0 counted as 0.
pub open spec fn range_end(n: int, off: i32, len: i32) -> int {
    let o = if off < 0 { 0 } else { off as int };
    let l = if len < 0 { 0 } else { len as int };
    if o + l < n { o + l } else { n }
}

/// A copy of `b[from..to]`.
pub(crate) fn slice_copy(b: &Vec<u8>, from: usize, to: usize) -> (r: Vec<u8>)
    requires
        from <= to <= b@.len(),
    ensures
        r@ == b@.subrange(from as int, to as int),
{
    let mut out: Vec<u8> = Vec::new();
    let mut i = from;
    while i < to
        invariant
            from <= i <= to <= b@.len(),
            out@ == b@.subrange(from as int, i as int),
        decreases to - i,
    {
        out.push(b[i]);
        proof {
            assert(b@.subrange(from as int, i + 1) =~= b@.subrange(from as int, i as int).push(b@[i as int]));
        }
        i += 1;
    }
    out
}

/// The 32 bytes of a 32-byte vector as an array.
fn array32(v: &Vec<u8>) -> (r: [u8; 32])
    requires
        v@.len() == 32,
    ensures
        r@ == v@,
{
    let mut a = [0u8; 32];
    let mut i: usize = 0;
    while i < 32
        invariant
            v@.len() == 32,
            i <= 32,
            forall|j: int| 0 <= j < i ==> a@[j] == v@[j],
        decreases 32 - i,
    {
        a.set(i, v[i]);
        i += 1;
    }
    assert(a@ =~= v@);
    a
}

/// `Cipher.doFinal(byte[], int, int)`: encrypts or decrypts the given range
/// of the input with the cipher's state. An uninitialised cipher, a failed
/// operation or an unsupported mode throws `IllegalArgumentException`; an
/// offset past the input throws `IndexOutOfBoundsException`.
pub fn cipher_do_final(vm: &mut Vm, args: &[JValue]) -> (r: R)
    requires
        old(vm).wf(),
        args@.len() >= 4,
    ensures
        nat_post(old(vm), final(vm)),
        r is Ok ==> byte_array_of(old(vm), args@[1]) is Some && cipher_of(old(vm), args@[0]) is Some
            && cipher_of(old(vm), args@[0])->Some_0.1 != 0
            && ({
                let input = byte_array_of(old(vm), args@[1])->Some_0;
                let off = if int_val(old(vm), args@[2]) < 0 { 0 } else { int_val(old(vm), args@[2]) as int };
                let end = range_end(input.len() as int, int_val(old(vm), args@[2]), int_val(old(vm), args@[3]));
                &&& off <= end
                &&& do_final_spec(cipher_of(old(vm), args@[0])->Some_0, input.subrange(off, end)) matches Some(out)
                &&& byte_array_of(final(vm), r->Ok_0) == Some(out)
            }),
        byte_array_of(old(vm), args@[1]) is Some && cipher_of(old(vm), args@[0]) is Some && ({
            let input = byte_array_of(old(vm), args@[1])->Some_0;
            let off = if int_val(old(vm), args@[2]) < 0 { 0 } else { int_val(old(vm), args@[2]) as int };
            let end = range_end(input.len() as int, int_val(old(vm), args@[2]), int_val(old(vm), args@[3]));
            off <= end && do_final_spec(cipher_of(old(vm), args@[0])->Some_0, input.subrange(off, end)) is None
        }) ==> r matches Err(NatErr::Throw(_)),
        (byte_array_of(old(vm), args@[1]) is Some && cipher_of(old(vm), args@[0]) is Some
            && cipher_of(old(vm), args@[0])->Some_0.1 != 0 && ({
            let input = byte_array_of(old(vm), args@[1])->Some_0;
            let off = if int_val(old(vm), args@[2]) < 0 { 0 } else { int_val(old(vm), args@[2]) as int };
            let end = range_end(input.len() as int, int_val(old(vm), args@[2]), int_val(old(vm), args@[3]));
            off <= end && do_final_spec(cipher_of(old(vm), args@[0])->Some_0, input.subrange(off, end)) is Some
        })) ==> (r is Ok || r matches Err(NatErr::Fatal(_))),
{
    let input = match bytes_of(vm, args[1]) {
        Some(b) => b,
        None => return Err(npe(vm)),
    };
    let o = int_of(vm, args[2]);
    let l = int_of(vm, args[3]);
    let off: usize = if o < 0 { 0 } else { o as usize };
    let len: usize = if l < 0 { 0 } else { l as usize };
    let end: usize = if off + len < input.len() { off + len } else { input.len() };
    if off > end {
        return Err(ioobe(vm, o));
    }
    let (t, mode, key, iv, aad) = match payload(vm, args[0]) {
        Some(Native::CipherState { transformation, mode, key, iv, tag_bits: _, aad }) => (
            to_owned_string(transformation.as_str()),
            *mode,
            crate::cipher::to_vec(key),
            crate::cipher::to_vec(iv),
            crate::cipher::to_vec(aad),
        ),
        _ => return Err(npe(vm)),
    };
    if mode == 0 {
        return Err(iae(vm, "Cipher not initialized"));
    }
    let data = slice_copy(&input, off, end);
    proof {
        reveal_strlit("AES/GCM/NOPADDING");
    }
    let out = if str_eq(t.as_str(), "AES/GCM/NOPADDING") {
        if key.len() != 32 {
            return Err(iae(vm, "AES-GCM currently requires a 32-byte key"));
        }
        let secret: [u8; 32] = array32(&key);
        let g = Gcm::new(&secret);
        if mode == 2 {
            match g.open(iv.as_slice(), aad.as_slice(), data.as_slice()) {
                Ok(p) => p,
                Err(_) => return Err(iae(vm, "GCM operation failed (bad key, tag or AAD)")),
            }
        } else if mode == 1 {
            g.seal(iv.as_slice(), aad.as_slice(), data.as_slice())
        } else {
            return Err(iae(vm, "unsupported cipher mode"));
        }
    } else {
        match aes_block_mode(t.as_str(), mode, key.as_slice(), iv.as_slice(), data.as_slice()) {
            Ok(v) => v,
            Err(m) => return Err(iae(vm, m)),
        }
    };
    new_byte_array(vm, &out)
}

/// `Cipher.doFinal(byte[])`: the whole input.
pub fn cipher_do_final_all(vm: &mut Vm, args: &[JValue]) -> (r: R)
    requires
        old(vm).wf(),
        args@.len() >= 2,
    ensures
        nat_post(old(vm), final(vm)),
        r is Ok ==> byte_array_of(old(vm), args@[1]) is Some && cipher_of(old(vm), args@[0]) is Some
            && byte_array_of(old(vm), args@[1])->Some_0.len() <= i32::MAX
            && do_final_spec(cipher_of(old(vm), args@[0])->Some_0, byte_array_of(old(vm), args@[1])->Some_0) is Some
            && byte_array_of(final(vm), r->Ok_0) == do_final_spec(cipher_of(old(vm), args@[0])->Some_0, byte_array_of(old(vm), args@[1])->Some_0),
        (byte_array_of(old(vm), args@[1]) is Some && cipher_of(old(vm), args@[0]) is Some
            && cipher_of(old(vm), args@[0])->Some_0.1 != 0
            && byte_array_of(old(vm), args@[1])->Some_0.len() <= i32::MAX
            && do_final_spec(cipher_of(old(vm), args@[0])->Some_0, byte_array_of(old(vm), args@[1])->Some_0) is Some)
            ==> (r is Ok || r matches Err(NatErr::Fatal(_))),
        byte_array_of(old(vm), args@[1]) is None ==> r matches Err(NatErr::Throw(_)),
{
    let n = match bytes_of(vm, args[1]) {
        Some(b) => b.len(),
        None => return Err(npe(vm)),
    };
    if n > i32::MAX as usize {
        return Err(iae(vm, "input too large"));
    }
    let a = [args[0], args[1], JValue::Int(0), JValue::Int(n as i32)];
    let ghost input = byte_array_of(vm, args@[1])->Some_0;
    let r = cipher_do_final(vm, &a);
    proof {
        assert(input.subrange(0, n as int) =~= input);
    }
    r
}

/// The UTF-16 decoding of `u`, unpaired surrogates becoming U+FFFD.
pub open spec fn utf16_decode(u: Seq<u16>) -> Seq<char>
    decreases u.len(),
{
    if u.len() == 0 {
        Seq::empty()
    } else if 0xD800 <= u[0] < 0xDC00 && u.len() >= 2 && 0xDC00 <= u[1] < 0xE000 {
        seq![(0x10000 + (u[0] - 0xD800) * 0x400 + (u[1] - 0xDC00)) as char] + utf16_decode(u.subrange(2, u.len() as int))
    } else if 0xD800 <= u[0] < 0xE000 {
        seq!['\u{FFFD}'] + utf16_decode(u.subrange(1, u.len() as int))
    } else {
        seq![u[0] as char] + utf16_decode(u.subrange(1, u.len() as int))
    }
}

proof fn lemma_decode_split(u: Seq<u16>, i: int, k: int, c: Seq<char>)
    requires
        0 <= i <= u.len(),
        k == 1 || k == 2,
        i + k <= u.len(),
        ({
            let rest = u.subrange(i, u.len() as int);
            &&& k == 2 ==> (0xD800 <= rest[0] < 0xDC00 && rest.len() >= 2 && 0xDC00 <= rest[1] < 0xE000
                && c == seq![(0x10000 + (rest[0] - 0xD800) * 0x400 + (rest[1] - 0xDC00)) as char])
            &&& k == 1 ==> !(0xD800 <= rest[0] < 0xDC00 && rest.len() >= 2 && 0xDC00 <= rest[1] < 0xE000)
                && c == (if 0xD800 <= rest[0] < 0xE000 { seq!['\u{FFFD}'] } else { seq![rest[0] as char] })
        }),
    ensures
        utf16_decode(u.subrange(i, u.len() as int)) == c + utf16_decode(u.subrange(i + k, u.len() as int)),
{
    let rest = u.subrange(i, u.len() as int);
    assert(rest.subrange(k, rest.len() as int) =~= u.subrange(i + k, u.len() as int));
}

/// The UTF-8 bytes of the UTF-16 code units of a `char[]`.
pub fn utf16_to_utf8(units: &Vec<u16>) -> (r: Vec<u8>)
    ensures
        r@ == vstd::utf8::encode_utf8(utf16_decode(units@)),
{
    let n = units.len();
    let mut s = String::new();
    let mut i: usize = 0;
    proof {
        assert(units@.subrange(0, n as int) =~= units@);
    }
    while i < n
        invariant
            n == units@.len(),
            i <= n,
            s@ + utf16_decode(units@.subrange(i as int, n as int)) == utf16_decode(units@),
        decreases n - i,
    {
        let u = units[i];
        let ghost s0 = s@;
        if 0xD800 <= u && u < 0xDC00 && i + 1 < n && 0xDC00 <= units[i + 1] && units[i + 1] < 0xE000 {
            let code: u32 = 0x10000 + (u as u32 - 0xD800) * 0x400 + (units[i + 1] as u32 - 0xDC00);
            proof {
                assert(crate::natives::character::is_scalar(code));
            }
            let c = crate::natives::character::code_to_char(code);
            crate::value::push_char(&mut s, c);
            proof {
                lemma_decode_split(units@, i as int, 2, seq![c]);
                assert(s@ + utf16_decode(units@.subrange(i + 2, n as int)) =~= s0 + (seq![c] + utf16_decode(units@.subrange(i + 2, n as int))));
            }
            i += 2;
        } else {
            let c = if 0xD800 <= u && u < 0xE000 {
                '\u{FFFD}'
            } else {
                crate::natives::character::code_to_char(u as u32)
            };
            crate::value::push_char(&mut s, c);
            proof {
                lemma_decode_split(units@, i as int, 1, seq![c]);
                assert(s@ + utf16_decode(units@.subrange(i + 1, n as int)) =~= s0 + (seq![c] + utf16_decode(units@.subrange(i + 1, n as int))));
            }
            i += 1;
        }
    }
    proof {
        assert(units@.subrange(n as int, n as int) =~= Seq::<u16>::empty());
        assert(s@ =~= utf16_decode(units@));
    }
    let b = s.as_str().as_bytes();
    let mut out: Vec<u8> = Vec::new();
    let mut k: usize = 0;
    while k < b.len()
        invariant
            k <= b@.len(),
            out@ == b@.take(k as int),
        decreases b@.len() - k,
    {
        out.push(b[k]);
        proof {
            assert(b@.take(k + 1) =~= b@.take(k as int).push(b@[k as int]));
        }
        k += 1;
    }
    proof {
        assert(b@.take(b@.len() as int) =~= b@);
    }
    out
}

/// The UTF-8 bytes of a `char[]` value's characters.
pub open spec fn password_bytes(vm: &Vm, v: JValue) -> Option<Seq<u8>> {
    match payload_spec(vm, v) {
        Some(Native::Array(ArrayData::Char(units))) => Some(vstd::utf8::encode_utf8(utf16_decode(units@))),
        _ => None,
    }
}

/// `PBEKeySpec.<init>(char[], byte[], int, int)`: the receiver carries the
/// password (as UTF-8; empty when not a `char[]`), the salt (empty when not
/// a `byte[]`), the iteration count and the key length in bits.
pub fn pbe_key_spec_init(vm: &mut Vm, args: &[JValue]) -> (r: R)
    requires
        old(vm).wf(),
        args@.len() >= 5,
    ensures
        nat_post(old(vm), final(vm)),
        r is Ok ==> r == Ok::<JValue, NatErr>(JValue::Null) && only_changed(old(vm), final(vm), args@[0])
            && pbe_of(final(vm), args@[0]) == Some((
                match password_bytes(old(vm), args@[1]) { Some(p) => p, None => Seq::empty() },
                match byte_array_of(old(vm), args@[2]) { Some(b) => b, None => Seq::empty() },
                int_val(old(vm), args@[3]),
                int_val(old(vm), args@[4]),
            )),
        (args@[0] matches JValue::Obj(id) && (id as int) < old(vm).arena.objects@.len()) ==> r is Ok,
{
    let password = match payload(vm, args[1]) {
        Some(Native::Array(ArrayData::Char(units))) => utf16_to_utf8(units),
        _ => Vec::new(),
    };
    let salt = match bytes_of(vm, args[2]) {
        Some(b) => b,
        None => Vec::new(),
    };
    let iterations = int_of(vm, args[3]);
    let key_len_bits = int_of(vm, args[4]);
    let this = receiver(vm, args[0])?;
    set_payload(vm, this, Native::PbeKeySpec { password, salt, iterations, key_len_bits });
    Ok(JValue::Null)
}

/// The password, salt, iteration count and key length a `PBEKeySpec` holds.
pub open spec fn pbe_of(vm: &Vm, v: JValue) -> Option<(Seq<u8>, Seq<u8>, i32, i32)> {
    match payload_spec(vm, v) {
        Some(Native::PbeKeySpec { password, salt, iterations, key_len_bits }) => Some((password@, salt@, iterations, key_len_bits)),
        _ => None,
    }
}

/// `SecretKeyFactory.getInstance(String)`: a factory remembering the
/// algorithm name.
pub fn secret_key_factory_get_instance(vm: &mut Vm, args: &[JValue]) -> (r: R)
    requires
        old(vm).wf(),
        args@.len() >= 1,
    ensures
        nat_post(old(vm), final(vm)),
        r is Ok ==> text_of(old(vm), args@[0]) is Some
            && (exists|n: Native| #[trigger] fresh_obj(old(vm), final(vm), r->Ok_0, "Ljavax/crypto/SecretKeyFactory;"@, n))
            && text_of(final(vm), r->Ok_0) == text_of(old(vm), args@[0]),
        text_of(old(vm), args@[0]) is None ==> r matches Err(NatErr::Throw(_)),
{
    let algo = jstr(vm, args[0])?;
    let n = Native::Str(algo);
    let ghost g = n;
    let r = new_object(vm, "Ljavax/crypto/SecretKeyFactory;", n);
    proof {
        if r is Ok {
            assert(fresh_obj(old(vm), final(vm), r->Ok_0, "Ljavax/crypto/SecretKeyFactory;"@, g));
        }
    }
    r
}

/// `SecretKeyFactory.generateSecret(KeySpec)`: the PBKDF2 key for the
/// factory's algorithm and the spec's password, salt, iterations and
/// length; a spec that is not a `PBEKeySpec` throws
/// `IllegalArgumentException`.
pub fn secret_key_factory_generate_secret(vm: &mut Vm, args: &[JValue]) -> (r: R)
    requires
        old(vm).wf(),
        args@.len() >= 2,
    ensures
        nat_post(old(vm), final(vm)),
        r is Ok ==> text_of(old(vm), args@[0]) is Some && pbe_of(old(vm), args@[1]) is Some
            && (exists|n: Native| #[trigger] fresh_obj(old(vm), final(vm), r->Ok_0, "Ljavax/crypto/spec/SecretKeySpec;"@, n))
            && key_of(final(vm), r->Ok_0) == Some({
                let p = pbe_of(old(vm), args@[1])->Some_0;
                pbkdf2_spec(text_of(old(vm), args@[0])->Some_0, p.0, p.1, p.2, p.3)
            }),
        text_of(old(vm), args@[0]) is Some && pbe_of(old(vm), args@[1]) is None ==> r matches Err(NatErr::Throw(_)),
{
    let algo = match payload(vm, args[0]) {
        Some(Native::Str(s)) => to_owned_string(s.as_str()),
        _ => return Err(npe(vm)),
    };
    let out = match payload(vm, args[1]) {
        Some(Native::PbeKeySpec { password, salt, iterations, key_len_bits }) => pbkdf2_compute(
            algo.as_str(),
            password.as_slice(),
            salt.as_slice(),
            *iterations,
            *key_len_bits,
        ),
        _ => return Err(iae(vm, "not a PBEKeySpec")),
    };
    let n = Native::Key(out);
    let ghost g = n;
    let r = new_object(vm, "Ljavax/crypto/spec/SecretKeySpec;", n);
    proof {
        if r is Ok {
            assert(fresh_obj(old(vm), final(vm), r->Ok_0, "Ljavax/crypto/spec/SecretKeySpec;"@, g));
        }
    }
    r
}

/// The algorithm and key a `Mac` holds.
pub open spec fn mac_of(vm: &Vm, v: JValue) -> Option<(Seq<char>, Seq<u8>)> {
    match payload_spec(vm, v) {
        Some(Native::Mac { algorithm, key }) => Some((algorithm@, key@)),
        _ => None,
    }
}

/// `Mac.getInstance(String)`: a MAC of that algorithm with no key yet.
pub fn mac_get_instance(vm: &mut Vm, args: &[JValue]) -> (r: R)
    requires
        old(vm).wf(),
        args@.len() >= 1,
    ensures
        nat_post(old(vm), final(vm)),
        r is Ok ==> text_of(old(vm), args@[0]) is Some
            && (exists|n: Native| #[trigger] fresh_obj(old(vm), final(vm), r->Ok_0, "Ljavax/crypto/Mac;"@, n))
            && mac_of(final(vm), r->Ok_0) == Some((text_of(old(vm), args@[0])->Some_0, Seq::<u8>::empty())),
        text_of(old(vm), args@[0]) is None ==> r matches Err(NatErr::Throw(_)),
{
    let algorithm = jstr(vm, args[0])?;
    let n = Native::Mac { algorithm, key: Vec::new() };
    let ghost g = n;
    let r = new_object(vm, "Ljavax/crypto/Mac;", n);
    proof {
        if r is Ok {
            assert(fresh_obj(old(vm), final(vm), r->Ok_0, "Ljavax/crypto/Mac;"@, g));
        }
    }
    r
}

/// `Mac.init(Key)`: the MAC takes the key's bytes.
pub fn mac_init(vm: &mut Vm, args: &[JValue]) -> (r: R)
    requires
        old(vm).wf(),
        args@.len() >= 2,
    ensures
        nat_post(old(vm), final(vm)),
        r is Ok ==> r == Ok::<JValue, NatErr>(JValue::Null) && key_of(old(vm), args@[1]) is Some && mac_of(old(vm), args@[0]) is Some
            && only_changed(old(vm), final(vm), args@[0])
            && mac_of(final(vm), args@[0]) == Some((mac_of(old(vm), args@[0])->Some_0.0, key_of(old(vm), args@[1])->Some_0)),
        key_of(old(vm), args@[1]) is Some && mac_of(old(vm), args@[0]) is Some ==> r is Ok,
{
    let key = match payload(vm, args[1]) {
        Some(Native::Key(k)) => crate::cipher::to_vec(k),
        _ => return Err(npe(vm)),
    };
    let this = receiver(vm, args[0])?;
    let algorithm = match &vm.arena.objects[this as usize].native {
        Some(Native::Mac { algorithm, .. }) => to_owned_string(algorithm.as_str()),
        _ => return Err(npe(vm)),
    };
    set_payload(vm, this, Native::Mac { algorithm, key });
    Ok(JValue::Null)
}

/// `Mac.getAlgorithm()`: the algorithm name.
pub fn mac_get_algorithm(vm: &mut Vm, args: &[JValue]) -> (r: R)
    requires
        old(vm).wf(),
        args@.len() >= 1,
    ensures
        nat_post(old(vm), final(vm)),
        r is Ok ==> mac_of(old(vm), args@[0]) is Some && crate::natives::str_result(old(vm), final(vm), r->Ok_0, mac_of(old(vm), args@[0])->Some_0.0),
        r is Ok <==> mac_of(old(vm), args@[0]) is Some,
        r is Err ==> r->Err_0 is Throw,
{
    let algorithm = match payload(vm, args[0]) {
        Some(Native::Mac { algorithm, .. }) => to_owned_string(algorithm.as_str()),
        _ => return Err(npe(vm)),
    };
    Ok(new_str(vm, algorithm.as_str()))
}

/// `Mac.doFinal(byte[])`: the tag of the input under the MAC's key; an
/// algorithm naming none of SHA256, SHA512, SHA1, MD5 throws
/// `IllegalArgumentException`.
pub fn mac_do_final(vm: &mut Vm, args: &[JValue]) -> (r: R)
    requires
        old(vm).wf(),
        args@.len() >= 2,
    ensures
        nat_post(old(vm), final(vm)),
        r is Ok ==> byte_array_of(old(vm), args@[1]) is Some && mac_of(old(vm), args@[0]) is Some && ({
            let m = mac_of(old(vm), args@[0])->Some_0;
            &&& mac_spec(m.0, m.1, byte_array_of(old(vm), args@[1])->Some_0) is Some
            &&& byte_array_of(final(vm), r->Ok_0) == mac_spec(m.0, m.1, byte_array_of(old(vm), args@[1])->Some_0)
        }),
        byte_array_of(old(vm), args@[1]) is Some && mac_of(old(vm), args@[0]) is Some && ({
            let m = mac_of(old(vm), args@[0])->Some_0;
            mac_spec(m.0, m.1, byte_array_of(old(vm), args@[1])->Some_0) is None
        }) ==> r matches Err(NatErr::Throw(_)),
{
    let input = match bytes_of(vm, args[1]) {
        Some(b) => b,
        None => return Err(npe(vm)),
    };
    let (algorithm, key) = match payload(vm, args[0]) {
        Some(Native::Mac { algorithm, key }) => (to_owned_string(algorithm.as_str()), crate::cipher::to_vec(key)),
        _ => return Err(npe(vm)),
    };
    match mac_compute(algorithm.as_str(), key.as_slice(), input.as_slice()) {
        Some(t) => new_byte_array(vm, &t),
        None => {
            let msg = concat("unsupported Mac algorithm ", algorithm.as_str());
            Err(iae(vm, msg.as_str()))
        },
    }
}

} // verus!
