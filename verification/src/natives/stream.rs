//! In-memory streams: `ByteArrayInputStream`, `ByteArrayOutputStream` and
//! the `OutputStream` writes onto it, and `GZIPInputStream`, which inflates
//! its whole source up front (DEFLATE from the `miniz_oxide` crate).

use vstd::prelude::*;

use crate::error::NatErr;
use crate::natives::crypto::{byte_array_of, bytes_of, new_byte_array, only_changed, text_of};
use crate::natives::{fresh_obj, iae, int_of, int_val, nat_post, new_object, npe, payload, set_payload, R};
use crate::object::{ArrayData, Native, Object};
use crate::value::JValue;
use crate::vm::{payload_spec, Vm};
use vstd::string::StringSliceAdditionalSpecFns;

verus! {

/// What a DEFLATE stream inflates to (`None` for a malformed stream).
pub uninterp spec fn inflate_of(data: Seq<u8>) -> Option<Seq<u8>>;

/// `miniz_oxide::inflate::decompress_to_vec`: the inflated bytes of a raw
/// DEFLATE stream, or `None` when the stream is malformed.
#[verifier::external_body]
fn inflate(data: &[u8]) -> (r: Option<Vec<u8>>)
    ensures
        r matches Some(v) ==> inflate_of(data@) == Some(v@),
        r is None ==> inflate_of(data@) is None,
{
    match miniz_oxide::inflate::decompress_to_vec(data) {
        Ok(v) => Some(v),
        Err(_) => None,
    }
}

/// Index of the first zero byte at or after `from` (the length when none).
pub open spec fn skip_zstr(data: Seq<u8>, from: int) -> int
    decreases data.len() - from,
{
    if from >= data.len() || from < 0 {
        from
    } else if data[from] == 0 {
        from
    } else {
        skip_zstr(data, from + 1)
    }
}

/// Where the DEFLATE body of a gzip member starts: after the ten-byte
/// header (magic 1f 8b, method 8) and the optional extra field, file name,
/// comment and header checksum its flags announce; `None` for a bad header
/// or one running past the data.
pub open spec fn gzip_body_start(data: Seq<u8>) -> Option<int> {
    if data.len() < 10 || data[0] != 0x1f || data[1] != 0x8b || data[2] != 8 {
        None
    } else {
        let flags = data[3];
        let p0 = 10int;
        let extra_bad = flags & 4 != 0 && p0 + 2 > data.len();
        let p1 = if flags & 4 != 0 && !extra_bad { p0 + 2 + (data[10] as int + 256 * data[11] as int) } else { p0 };
        let p2 = if flags & 8 != 0 { skip_zstr(data, p1) + 1 } else { p1 };
        let p3 = if flags & 16 != 0 { skip_zstr(data, p2) + 1 } else { p2 };
        let p4 = if flags & 2 != 0 { p3 + 2 } else { p3 };
        if extra_bad || p4 > data.len() { None } else { Some(p4) }
    }
}

/// The decompressed contents of a gzip member.
pub open spec fn gunzip(data: Seq<u8>) -> Option<Seq<u8>> {
    match gzip_body_start(data) {
        Some(p) => inflate_of(data.subrange(p, data.len() as int)),
        None => None,
    }
}

/// Index of the first zero byte at or after `from`.
fn skip_zstr_exec(data: &Vec<u8>, from: usize) -> (r: usize)
    ensures
        r as int == skip_zstr(data@, from as int),
    decreases data@.len() - from,
{
    if from >= data.len() {
        from
    } else if data[from] == 0 {
        from
    } else {
        skip_zstr_exec(data, from + 1)
    }
}

proof fn lemma_skip_bound(data: Seq<u8>, from: int)
    requires
        0 <= from,
    ensures
        from <= skip_zstr(data, from) <= if from > data.len() { from } else { data.len() as int },
    decreases data.len() - from,
{
    if from < data.len() && data[from] != 0 {
        lemma_skip_bound(data, from + 1);
    }
}

/// The decompressed contents of a gzip member (header, then DEFLATE).
pub fn gzip_decompress(data: &Vec<u8>) -> (r: Option<Vec<u8>>)
    requires
        data@.len() < 0x7fff_ffff,
    ensures
        r matches Some(v) ==> gunzip(data@) == Some(v@),
        r is None ==> gunzip(data@) is None,
{
    if data.len() < 10 || data[0] != 0x1f || data[1] != 0x8b || data[2] != 8 {
        return None;
    }
    let flags = data[3];
    let mut pos: usize = 10;
    if flags & 4 != 0 {
        if pos + 2 > data.len() {
            return None;
        }
        let xlen = data[10] as usize + 256 * data[11] as usize;
        pos = pos + 2 + xlen;
    }
    if flags & 8 != 0 {
        proof { lemma_skip_bound(data@, pos as int); }
        pos = skip_zstr_exec(data, pos) + 1;
    }
    if flags & 16 != 0 {
        proof { lemma_skip_bound(data@, pos as int); }
        pos = skip_zstr_exec(data, pos) + 1;
    }
    if flags & 2 != 0 {
        pos = pos + 2;
    }
    if pos > data.len() {
        return None;
    }
    let body = crate::natives::crypto::slice_copy(data, pos, data.len());
    inflate(body.as_slice())
}

/// The bytes and read position of a `ByteArrayInputStream`.
pub open spec fn bais_of(vm: &Vm, v: JValue) -> Option<(Seq<u8>, usize)> {
    match payload_spec(vm, v) {
        Some(Native::ByteArrayInputStream { bytes, pos }) => Some((bytes@, pos)),
        _ => None,
    }
}

/// The bytes written to a `ByteArrayOutputStream`.
pub open spec fn baos_of(vm: &Vm, v: JValue) -> Option<Seq<u8>> {
    match payload_spec(vm, v) {
        Some(Native::ByteArrayOutputStream(b)) => Some(b@),
        _ => None,
    }
}

/// A new `ByteArrayInputStream` over `bytes`, at position 0.
fn new_bais(vm: &mut Vm, bytes: Vec<u8>) -> (r: R)
    requires
        old(vm).wf(),
    ensures
        nat_post(old(vm), final(vm)),
        r is Ok ==> (exists|n: Native| #[trigger] fresh_obj(old(vm), final(vm), r->Ok_0, "Ljava/io/ByteArrayInputStream;"@, n))
            && bais_of(final(vm), r->Ok_0) == Some((bytes@, 0usize)),
        r matches Err(e) ==> e is Fatal,
{
    let n = Native::ByteArrayInputStream { bytes, pos: 0 };
    let ghost g = n;
    let r = new_object(vm, "Ljava/io/ByteArrayInputStream;", n);
    proof {
        if r is Ok {
            assert(fresh_obj(old(vm), final(vm), r->Ok_0, "Ljava/io/ByteArrayInputStream;"@, g));
        }
    }
    r
}

/// `ByteArrayInputStream.<init>(byte[])`: a stream over the array's bytes.
pub fn bais_init(vm: &mut Vm, args: &[JValue]) -> (r: R)
    requires
        old(vm).wf(),
        args@.len() >= 2,
    ensures
        nat_post(old(vm), final(vm)),
        r is Ok ==> byte_array_of(old(vm), args@[1]) is Some
            && bais_of(final(vm), r->Ok_0) == Some((byte_array_of(old(vm), args@[1])->Some_0, 0usize)),
        byte_array_of(old(vm), args@[1]) is None ==> r matches Err(NatErr::Throw(_)),
{
    let bytes = match bytes_of(vm, args[1]) {
        Some(b) => b,
        None => return Err(npe(vm)),
    };
    new_bais(vm, bytes)
}

/// The clamped `(offset, length)` of a range request within `n` bytes:
/// negative values count as 0, the offset stops at `n`, the length at what
/// is left.
pub open spec fn clamp_range(n: int, off: i32, len: i32) -> (int, int) {
    let o = if off < 0 { 0 } else if off as int > n { n } else { off as int };
    let l = if len < 0 { 0 } else if len as int > n - o { n - o } else { len as int };
    (o, l)
}

/// `ByteArrayInputStream.<init>(byte[], int, int)`: a stream over the
/// clamped range of the array.
pub fn bais_init_range(vm: &mut Vm, args: &[JValue]) -> (r: R)
    requires
        old(vm).wf(),
        args@.len() >= 4,
    ensures
        nat_post(old(vm), final(vm)),
        r is Ok ==> byte_array_of(old(vm), args@[1]) is Some && ({
            let b = byte_array_of(old(vm), args@[1])->Some_0;
            let (o, l) = clamp_range(b.len() as int, int_val(old(vm), args@[2]), int_val(old(vm), args@[3]));
            bais_of(final(vm), r->Ok_0) == Some((b.subrange(o, o + l), 0usize))
        }),
        byte_array_of(old(vm), args@[1]) is None ==> r matches Err(NatErr::Throw(_)),
{
    let bytes = match bytes_of(vm, args[1]) {
        Some(b) => b,
        None => return Err(npe(vm)),
    };
    let a = int_of(vm, args[2]);
    let b = int_of(vm, args[3]);
    let n = bytes.len();
    let off: usize = if a < 0 { 0 } else if a as usize > n { n } else { a as usize };
    let len: usize = if b < 0 { 0 } else if b as usize > n - off { n - off } else { b as usize };
    let part = crate::natives::crypto::slice_copy(&bytes, off, off + len);
    new_bais(vm, part)
}

/// `ByteArrayInputStream.read()`: the next byte (0-255), or -1 at the end.
pub fn bais_read(vm: &mut Vm, args: &[JValue]) -> (r: R)
    requires
        old(vm).wf(),
        args@.len() >= 1,
    ensures
        nat_post(old(vm), final(vm)),
        r is Ok ==> bais_of(old(vm), args@[0]) is Some && ({
            let (b, p) = bais_of(old(vm), args@[0])->Some_0;
            if (p as int) < b.len() {
                &&& r == Ok::<JValue, NatErr>(JValue::Int(b[p as int] as i32))
                &&& only_changed(old(vm), final(vm), args@[0])
                &&& bais_of(final(vm), args@[0]) == Some((b, (p + 1) as usize))
            } else {
                r == Ok::<JValue, NatErr>(JValue::Int(-1i32)) && *final(vm) == *old(vm)
            }
        }),
        r is Ok <==> bais_of(old(vm), args@[0]) is Some,
        r is Err ==> r->Err_0 is Throw,
{
    let (bytes, pos) = match payload(vm, args[0]) {
        Some(Native::ByteArrayInputStream { bytes, pos }) => (crate::cipher::to_vec(bytes), *pos),
        _ => return Err(npe(vm)),
    };
    if pos >= bytes.len() {
        return Ok(JValue::Int(-1));
    }
    let b = bytes[pos];
    let id = match args[0] {
        JValue::Obj(id) => id,
        _ => return Err(npe(vm)),
    };
    set_payload(vm, id, Native::ByteArrayInputStream { bytes, pos: pos + 1 });
    Ok(JValue::Int(b as i32))
}

/// `ByteArrayInputStream.available()`: the bytes left.
pub fn bais_available(vm: &mut Vm, args: &[JValue]) -> (r: R)
    requires
        old(vm).wf(),
        args@.len() >= 1,
    ensures
        nat_post(old(vm), final(vm)),
        r is Ok ==> bais_of(old(vm), args@[0]) is Some && *final(vm) == *old(vm) && ({
            let (b, p) = bais_of(old(vm), args@[0])->Some_0;
            r == Ok::<JValue, NatErr>(JValue::Int(if (p as int) < b.len() { #[verifier::truncate] ((b.len() - p) as i32) } else { 0i32 }))
        }),
        r is Ok <==> bais_of(old(vm), args@[0]) is Some,
        r is Err ==> r->Err_0 is Throw,
{
    match payload(vm, args[0]) {
        Some(Native::ByteArrayInputStream { bytes, pos }) => {
            let left: usize = if *pos < bytes.len() { bytes.len() - *pos } else { 0 };
            Ok(JValue::Int(#[verifier::truncate] (left as i32)))
        },
        _ => Err(npe(vm)),
    }
}

/// `close()`, `flush()`: nothing to do.
pub fn bais_close(vm: &mut Vm, args: &[JValue]) -> (r: R)
    ensures
        *final(vm) == *old(vm),
        r == Ok::<JValue, NatErr>(JValue::Null),
{
    Ok(JValue::Null)
}

/// `ByteArrayInputStream.read(byte[], int, int)`: copies up to `len` bytes
/// into the array at `off` (both clamped to the array), advances the
/// position, and returns the count, or -1 when nothing was left.
pub fn bais_read_buf(vm: &mut Vm, args: &[JValue]) -> (r: R)
    requires
        old(vm).wf(),
        args@.len() >= 4,
    ensures
        nat_post(old(vm), final(vm)),
        r is Ok ==> bais_of(old(vm), args@[0]) is Some && byte_array_of(old(vm), args@[1]) is Some && ({
            let (b, p) = bais_of(old(vm), args@[0])->Some_0;
            let dst = byte_array_of(old(vm), args@[1])->Some_0;
            let (o, l) = clamp_range(dst.len() as int, int_val(old(vm), args@[2]), int_val(old(vm), args@[3]));
            let left = if (p as int) < b.len() { b.len() - p } else { 0 };
            let n = if l < left { l } else { left };
            let mid = if n > 0 { b.subrange(p as int, p + n) } else { Seq::empty() };
            &&& byte_array_of(final(vm), args@[1]) == Some(dst.subrange(0, o) + mid + dst.subrange(o + n, dst.len() as int))
            &&& bais_of(final(vm), args@[0]) == Some((b, (p + n) as usize))
            &&& r == Ok::<JValue, NatErr>(JValue::Int(if n == 0 && (p as int) >= b.len() { -1i32 } else { n as i32 }))
        }),
        r is Ok <==> bais_of(old(vm), args@[0]) is Some && byte_array_of(old(vm), args@[1]) is Some
            && byte_array_of(old(vm), args@[1])->Some_0.len() < 0x7fff_ffff && bais_of(old(vm), args@[0])->Some_0.0.len() < 0x7fff_ffff,
        r is Err ==> r->Err_0 is Throw,
{
    let a = int_of(vm, args[2]);
    let c = int_of(vm, args[3]);
    let (bytes, pos) = match payload(vm, args[0]) {
        Some(Native::ByteArrayInputStream { bytes, pos }) => (crate::cipher::to_vec(bytes), *pos),
        _ => return Err(npe(vm)),
    };
    let dst_bytes = match bytes_of(vm, args[1]) {
        Some(d) => d,
        None => return Err(npe(vm)),
    };
    let (sid, did) = match (args[0], args[1]) {
        (JValue::Obj(s), JValue::Obj(d)) => (s, d),
        _ => return Err(npe(vm)),
    };
    if sid == did {
        return Err(npe(vm));
    }
    let dn = dst_bytes.len();
    if dn >= 0x7fff_ffff || bytes.len() >= 0x7fff_ffff {
        return Err(iae(vm, "buffer too large"));
    }
    let off: usize = if a < 0 { 0 } else if a as usize > dn { dn } else { a as usize };
    let len: usize = if c < 0 { 0 } else if c as usize > dn - off { dn - off } else { c as usize };
    let left: usize = if pos < bytes.len() { bytes.len() - pos } else { 0 };
    let n: usize = if len < left { len } else { left };
    let mut out: Vec<u8> = crate::natives::crypto::slice_copy(&dst_bytes, 0, off);
    let from: usize = if pos < bytes.len() { pos } else { bytes.len() };
    let mid = crate::natives::crypto::slice_copy(&bytes, from, from + n);
    proof {
        if n == 0 {
            assert(mid@ =~= Seq::<u8>::empty());
        }
    }
    let tail = crate::natives::crypto::slice_copy(&dst_bytes, off + n, dn);
    crate::gcm::append(&mut out, mid.as_slice());
    crate::gcm::append(&mut out, tail.as_slice());
    let at_end = pos >= bytes.len();
    let arr = crate::natives::crypto::signed_vec(&out);
    set_payload(vm, did, Native::Array(ArrayData::Byte(arr)));
    set_payload(vm, sid, Native::ByteArrayInputStream { bytes, pos: pos + n });
    proof {
        crate::natives::crypto::lemma_signed_unsigned(out@);
    }
    Ok(JValue::Int(if n == 0 && at_end { -1 } else { n as i32 }))
}

/// A thrown `IOException` with message `msg`.
pub fn ioe(vm: &mut Vm, msg: &str) -> (r: NatErr)
    requires
        old(vm).wf(),
    ensures
        nat_post(old(vm), final(vm)),
        r is Throw,
        old(vm).arena.objects@.len() < 0x7fff_ffff ==> crate::natives::throws(final(vm), Err(r), "Ljava/io/IOException;"@),
{
    NatErr::Throw(vm.throwable_of("Ljava/io/IOException;", msg))
}

/// `ByteArrayOutputStream.<init>()`: the receiver starts out empty.
pub fn byte_array_output_stream_init(vm: &mut Vm, args: &[JValue]) -> (r: R)
    requires
        old(vm).wf(),
        args@.len() >= 1,
    ensures
        nat_post(old(vm), final(vm)),
        r is Ok ==> r == Ok::<JValue, NatErr>(JValue::Null) && only_changed(old(vm), final(vm), args@[0])
            && baos_of(final(vm), args@[0]) == Some(Seq::<u8>::empty()),
        (args@[0] matches JValue::Obj(id) && (id as int) < old(vm).arena.objects@.len()) ==> r is Ok,
{
    match args[0] {
        JValue::Obj(id) => {
            if (id as usize) < vm.arena.objects.len() {
                set_payload(vm, id, Native::ByteArrayOutputStream(Vec::new()));
                return Ok(JValue::Null);
            }
        },
        _ => {},
    }
    Err(npe(vm))
}

/// `ByteArrayOutputStream.toByteArray()`: the bytes written so far.
pub fn byte_array_output_stream_to_bytes(vm: &mut Vm, args: &[JValue]) -> (r: R)
    requires
        old(vm).wf(),
        args@.len() >= 1,
    ensures
        nat_post(old(vm), final(vm)),
        r is Ok ==> baos_of(old(vm), args@[0]) is Some && byte_array_of(final(vm), r->Ok_0) == baos_of(old(vm), args@[0]),
        baos_of(old(vm), args@[0]) is None ==> r matches Err(NatErr::Throw(_)),
        baos_of(old(vm), args@[0]) is Some ==> r is Ok || r matches Err(NatErr::Fatal(_)),
{
    let bytes = match payload(vm, args[0]) {
        Some(Native::ByteArrayOutputStream(b)) => crate::cipher::to_vec(b),
        _ => return Err(npe(vm)),
    };
    new_byte_array(vm, &bytes)
}

/// Appends `bytes` to the `ByteArrayOutputStream` `stream`.
fn baos_append(vm: &mut Vm, stream: JValue, bytes: &Vec<u8>) -> (r: R)
    requires
        old(vm).wf(),
    ensures
        nat_post(old(vm), final(vm)),
        r is Ok ==> r == Ok::<JValue, NatErr>(JValue::Null) && baos_of(old(vm), stream) is Some
            && only_changed(old(vm), final(vm), stream)
            && baos_of(final(vm), stream) == Some(baos_of(old(vm), stream)->Some_0 + bytes@),
        baos_of(old(vm), stream) is None ==> r is Err,
        baos_of(old(vm), stream) is Some ==> r is Ok,
{
    let mut out = match payload(vm, stream) {
        Some(Native::ByteArrayOutputStream(b)) => crate::cipher::to_vec(b),
        _ => return Err(npe(vm)),
    };
    crate::gcm::append(&mut out, bytes.as_slice());
    match stream {
        JValue::Obj(id) => {
            set_payload(vm, id, Native::ByteArrayOutputStream(out));
            Ok(JValue::Null)
        },
        _ => Err(npe(vm)),
    }
}

/// `OutputStream.write(int)`: appends the low byte.
pub fn output_stream_write_byte(vm: &mut Vm, args: &[JValue]) -> (r: R)
    requires
        old(vm).wf(),
        args@.len() >= 2,
    ensures
        nat_post(old(vm), final(vm)),
        r is Ok ==> baos_of(old(vm), args@[0]) is Some && only_changed(old(vm), final(vm), args@[0])
            && baos_of(final(vm), args@[0]) == Some(baos_of(old(vm), args@[0])->Some_0.push(#[verifier::truncate] (int_val(old(vm), args@[1]) as u8))),
        baos_of(old(vm), args@[0]) is Some <==> r is Ok,
{
    let b = int_of(vm, args[1]);
    let v = vec![#[verifier::truncate] (b as u8)];
    proof {
        assert(v@ =~= seq![#[verifier::truncate] (b as u8)]);
    }
    baos_append(vm, args[0], &v)
}

/// `OutputStream.write(byte[])`: appends the array's bytes.
pub fn output_stream_write_bytes(vm: &mut Vm, args: &[JValue]) -> (r: R)
    requires
        old(vm).wf(),
        args@.len() >= 2,
    ensures
        nat_post(old(vm), final(vm)),
        r is Ok ==> baos_of(old(vm), args@[0]) is Some && byte_array_of(old(vm), args@[1]) is Some
            && only_changed(old(vm), final(vm), args@[0])
            && baos_of(final(vm), args@[0]) == Some(baos_of(old(vm), args@[0])->Some_0 + byte_array_of(old(vm), args@[1])->Some_0),
        baos_of(old(vm), args@[0]) is Some && byte_array_of(old(vm), args@[1]) is Some ==> r is Ok,
{
    let bytes = match bytes_of(vm, args[1]) {
        Some(b) => b,
        None => return Err(npe(vm)),
    };
    baos_append(vm, args[0], &bytes)
}

/// `OutputStream.write(byte[], int, int)`: appends `len` bytes from `off`;
/// a range outside the array throws `IllegalArgumentException`.
pub fn output_stream_write_range(vm: &mut Vm, args: &[JValue]) -> (r: R)
    requires
        old(vm).wf(),
        args@.len() >= 4,
    ensures
        nat_post(old(vm), final(vm)),
        r is Ok ==> baos_of(old(vm), args@[0]) is Some && byte_array_of(old(vm), args@[1]) is Some && ({
            let b = byte_array_of(old(vm), args@[1])->Some_0;
            let o = int_val(old(vm), args@[2]) as int;
            let l = int_val(old(vm), args@[3]) as int;
            &&& 0 <= o && 0 <= l && o + l <= b.len()
            &&& only_changed(old(vm), final(vm), args@[0])
            &&& baos_of(final(vm), args@[0]) == Some(baos_of(old(vm), args@[0])->Some_0 + b.subrange(o, o + l))
        }),
        byte_array_of(old(vm), args@[1]) is Some && ({
            let b = byte_array_of(old(vm), args@[1])->Some_0;
            let o = int_val(old(vm), args@[2]) as int;
            let l = int_val(old(vm), args@[3]) as int;
            !(0 <= o && 0 <= l && o + l <= b.len())
        }) ==> r matches Err(NatErr::Throw(_)),
{
    let bytes = match bytes_of(vm, args[1]) {
        Some(b) => b,
        None => return Err(npe(vm)),
    };
    let o = int_of(vm, args[2]);
    let l = int_of(vm, args[3]);
    if o < 0 || l < 0 || o as usize > bytes.len() || l as usize > bytes.len() - o as usize {
        return Err(iae(vm, "byte range out of bounds"));
    }
    let part = crate::natives::crypto::slice_copy(&bytes, o as usize, o as usize + l as usize);
    baos_append(vm, args[0], &part)
}

/// The bytes a `GZIPInputStream` reads its source from: what is left of a
/// `ByteArrayInputStream`, or a string's UTF-8 bytes.
pub open spec fn gzip_source(vm: &Vm, v: JValue) -> Option<Seq<u8>> {
    match payload_spec(vm, v) {
        Some(Native::ByteArrayInputStream { bytes, pos }) => Some(if (pos as int) < bytes@.len() { bytes@.subrange(pos as int, bytes@.len() as int) } else { Seq::empty() }),
        Some(Native::Str(s)) => Some(vstd::utf8::encode_utf8(s@)),
        _ => None,
    }
}

/// `GZIPInputStream.<init>(InputStream)`: inflates the whole source now;
/// the receiver becomes a stream over the result. A source that is not a
/// gzip member throws `IOException`.
pub fn gzip_input_stream_init(vm: &mut Vm, args: &[JValue]) -> (r: R)
    requires
        old(vm).wf(),
        args@.len() >= 2,
    ensures
        nat_post(old(vm), final(vm)),
        r is Ok ==> gzip_source(old(vm), args@[1]) is Some && gunzip(gzip_source(old(vm), args@[1])->Some_0) is Some
            && only_changed(old(vm), final(vm), args@[0])
            && bais_of(final(vm), args@[0]) == Some((gunzip(gzip_source(old(vm), args@[1])->Some_0)->Some_0, 0usize)),
        gzip_source(old(vm), args@[1]) is Some && gzip_source(old(vm), args@[1])->Some_0.len() < 0x7fff_ffff
            && gunzip(gzip_source(old(vm), args@[1])->Some_0) is None ==> r matches Err(NatErr::Throw(_)),
{
    let compressed = match payload(vm, args[1]) {
        Some(Native::ByteArrayInputStream { bytes, pos }) => {
            if *pos < bytes.len() {
                crate::natives::crypto::slice_copy(bytes, *pos, bytes.len())
            } else {
                Vec::new()
            }
        },
        Some(Native::Str(s)) => {
            let b = s.as_str().as_bytes();
            let mut v: Vec<u8> = Vec::new();
            let mut i: usize = 0;
            while i < b.len()
                invariant
                    i <= b@.len(),
                    v@ == b@.take(i as int),
                decreases b@.len() - i,
            {
                v.push(b[i]);
                proof {
                    assert(b@.take(i + 1) =~= b@.take(i as int).push(b@[i as int]));
                }
                i += 1;
            }
            proof {
                assert(b@.take(b@.len() as int) =~= b@);
            }
            v
        },
        _ => return Err(npe(vm)),
    };
    if compressed.len() >= 0x7fff_ffff {
        return Err(ioe(vm, "gzip stream too large"));
    }
    let out = match gzip_decompress(&compressed) {
        Some(o) => o,
        None => return Err(ioe(vm, "not a gzip stream")),
    };
    match args[0] {
        JValue::Obj(id) => {
            if (id as usize) < vm.arena.objects.len() {
                set_payload(vm, id, Native::ByteArrayInputStream { bytes: out, pos: 0 });
                return Ok(JValue::Null);
            }
        },
        _ => {},
    }
    Err(npe(vm))
}

} // verus!
