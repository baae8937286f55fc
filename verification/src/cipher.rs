//! AES in ECB and CBC modes with optional PKCS#5/#7 padding, as
//! `javax.crypto.Cipher` applies them.

use vstd::prelude::*;

use crate::aes::{block_dec, block_enc, crypt_block, key_ok};

verus! {

/// Byte-wise exclusive or of two 16-byte blocks.
pub open spec fn xor16(a: Seq<u8>, b: Seq<u8>) -> Seq<u8> {
    Seq::new(16, |i: int| a[i] ^ b[i])
}

/// Encryption of the whole 16-byte blocks of `data`, chaining from `chain`
/// when `cbc` (each plaintext block is xored with the previous ciphertext
/// block before encryption).
pub open spec fn enc_blocks(key: Seq<u8>, cbc: bool, chain: Seq<u8>, data: Seq<u8>) -> Seq<u8>
    decreases data.len(),
{
    if data.len() < 16 {
        Seq::empty()
    } else {
        let inb = if cbc { xor16(data.subrange(0, 16), chain) } else { data.subrange(0, 16) };
        let c = block_enc(key, inb);
        c + enc_blocks(key, cbc, c, data.subrange(16, data.len() as int))
    }
}

/// Decryption of the whole 16-byte blocks of `data`, chaining from `chain`
/// when `cbc` (each decrypted block is xored with the previous ciphertext
/// block).
pub open spec fn dec_blocks(key: Seq<u8>, cbc: bool, chain: Seq<u8>, data: Seq<u8>) -> Seq<u8>
    decreases data.len(),
{
    if data.len() < 16 {
        Seq::empty()
    } else {
        let c = data.subrange(0, 16);
        let p0 = block_dec(key, c);
        let p = if cbc { xor16(p0, chain) } else { p0 };
        p + dec_blocks(key, cbc, c, data.subrange(16, data.len() as int))
    }
}

/// PKCS#5/#7 padding: 1 to 16 bytes, each holding the padding length.
pub open spec fn pad(d: Seq<u8>) -> Seq<u8> {
    let n = 16 - d.len() % 16;
    d + Seq::new(n as nat, |i: int| n as u8)
}

/// Valid padding: the last byte `n` is 1..=16, and the last `n` bytes all
/// hold `n`.
pub open spec fn unpad_ok(o: Seq<u8>) -> bool {
    &&& o.len() > 0
    &&& 1 <= o.last() <= 16
    &&& o.last() <= o.len()
    &&& forall|i: int| o.len() - o.last() <= i < o.len() ==> o[i] == o.last()
}

/// `o` without its padding.
pub open spec fn unpad(o: Seq<u8>) -> Seq<u8> {
    o.subrange(0, o.len() - o.last())
}

/// `s` contains `pat`.
pub open spec fn has_sub(s: Seq<char>, pat: Seq<char>) -> bool {
    exists|i: int| 0 <= i && i + pat.len() <= s.len() && #[trigger] s.subrange(i, i + pat.len()) == pat
}

/// `s` ends with `pat`.
pub open spec fn ends(s: Seq<char>, pat: Seq<char>) -> bool {
    pat.len() <= s.len() && s.subrange(s.len() - pat.len(), s.len() as int) == pat
}

/// Whether `s` contains `pat`.
pub fn str_contains(s: &str, pat: &str) -> (r: bool)
    ensures
        r == has_sub(s@, pat@),
{
    let n = s.unicode_len();
    let m = pat.unicode_len();
    if m > n {
        return false;
    }
    let last = n - m;
    let mut i: usize = 0;
    while i < last
        invariant
            n == s@.len(),
            m == pat@.len(),
            m <= n,
            last == n - m,
            i <= last,
            forall|k: int| 0 <= k < i ==> #[trigger] s@.subrange(k, k + m) != pat@,
        decreases last - i,
    {
        if crate::value::str_eq(s.substring_char(i, i + m), pat) {
            assert(s@.subrange(i as int, i + pat@.len()) == pat@);
            return true;
        }
        i += 1;
    }
    if crate::value::str_eq(s.substring_char(last, n), pat) {
        assert(s@.subrange(last as int, last + pat@.len()) == pat@);
        return true;
    }
    proof {
        assert forall|k: int| 0 <= k && k + pat@.len() <= s@.len() implies #[trigger] s@.subrange(k, k + pat@.len()) != pat@ by {
        }
    }
    false
}

/// Whether `s` ends with `pat`.
pub fn str_ends_with(s: &str, pat: &str) -> (r: bool)
    ensures
        r == ends(s@, pat@),
{
    let n = s.unicode_len();
    let m = pat.unicode_len();
    if m > n {
        return false;
    }
    crate::value::str_eq(s.substring_char(n - m, n), pat)
}

/// The 16 bytes of `v` starting at `at`.
fn block_at(v: &Vec<u8>, at: usize) -> (r: [u8; 16])
    requires
        at + 16 <= v@.len(),
    ensures
        r@ == v@.subrange(at as int, at + 16),
{
    let mut b = [0u8; 16];
    let n = v.len();
    let mut i: usize = 0;
    while i < 16
        invariant
            at + 16 <= v@.len(),
            n == v@.len(),
            i <= 16,
            forall|k: int| 0 <= k < i ==> b@[k] == v@[at + k],
        decreases 16 - i,
    {
        b.set(i, v[at + i]);
        i += 1;
    }
    assert(b@ =~= v@.subrange(at as int, at + 16));
    b
}

/// Exclusive or of two blocks.
fn xor_block(a: &[u8; 16], b: &[u8; 16]) -> (r: [u8; 16])
    ensures
        r@ == xor16(a@, b@),
{
    let mut out = [0u8; 16];
    let mut i: usize = 0;
    while i < 16
        invariant
            i <= 16,
            forall|k: int| 0 <= k < i ==> out@[k] == a@[k] ^ b@[k],
        decreases 16 - i,
    {
        out.set(i, a[i] ^ b[i]);
        i += 1;
    }
    assert(out@ =~= xor16(a@, b@));
    out
}

/// Appends a block.
fn push_block(out: &mut Vec<u8>, b: &[u8; 16])
    ensures
        final(out)@ == old(out)@ + b@,
{
    let mut i: usize = 0;
    while i < 16
        invariant
            i <= 16,
            out@ == old(out)@ + b@.subrange(0, i as int),
        decreases 16 - i,
    {
        out.push(b[i]);
        i += 1;
        assert(out@ =~= old(out)@ + b@.subrange(0, i as int));
    }
    assert(b@.subrange(0, 16) =~= b@);
}

proof fn lemma_enc_step(key: Seq<u8>, cbc: bool, chain: Seq<u8>, data: Seq<u8>, at: int)
    requires
        0 <= at,
        at + 16 <= data.len(),
    ensures
        enc_blocks(key, cbc, chain, data.subrange(at, data.len() as int)) == ({
            let inb = if cbc { xor16(data.subrange(at, at + 16), chain) } else { data.subrange(at, at + 16) };
            let c = block_enc(key, inb);
            c + enc_blocks(key, cbc, c, data.subrange(at + 16, data.len() as int))
        }),
{
    let rest = data.subrange(at, data.len() as int);
    assert(rest.subrange(0, 16) =~= data.subrange(at, at + 16));
    assert(rest.subrange(16, rest.len() as int) =~= data.subrange(at + 16, data.len() as int));
}

proof fn lemma_dec_step(key: Seq<u8>, cbc: bool, chain: Seq<u8>, data: Seq<u8>, at: int)
    requires
        0 <= at,
        at + 16 <= data.len(),
    ensures
        dec_blocks(key, cbc, chain, data.subrange(at, data.len() as int)) == ({
            let c = data.subrange(at, at + 16);
            let p0 = block_dec(key, c);
            let p = if cbc { xor16(p0, chain) } else { p0 };
            p + dec_blocks(key, cbc, c, data.subrange(at + 16, data.len() as int))
        }),
{
    let rest = data.subrange(at, data.len() as int);
    assert(rest.subrange(0, 16) =~= data.subrange(at, at + 16));
    assert(rest.subrange(16, rest.len() as int) =~= data.subrange(at + 16, data.len() as int));
}

/// The padded input for encryption.
fn pad_exec(input: &[u8]) -> (r: Vec<u8>)
    ensures
        r@ == pad(input@),
{
    let mut data: Vec<u8> = Vec::new();
    let mut i: usize = 0;
    while i < input.len()
        invariant
            i <= input@.len(),
            data@ == input@.subrange(0, i as int),
        decreases input@.len() - i,
    {
        data.push(input[i]);
        i += 1;
        assert(data@ =~= input@.subrange(0, i as int));
    }
    let n = 16 - input.len() % 16;
    let mut k: usize = 0;
    while k < n
        invariant
            k <= n,
            n == 16 - input@.len() % 16,
            data@ == input@ + Seq::new(k as nat, |j: int| n as u8),
        decreases n - k,
    {
        data.push(n as u8);
        k += 1;
        assert(data@ =~= input@ + Seq::new(k as nat, |j: int| n as u8));
    }
    data
}

/// Copy of a slice.
pub(crate) fn to_vec(input: &[u8]) -> (r: Vec<u8>)
    ensures
        r@ == input@,
{
    let mut data: Vec<u8> = Vec::new();
    let mut i: usize = 0;
    while i < input.len()
        invariant
            i <= input@.len(),
            data@ == input@.subrange(0, i as int),
        decreases input@.len() - i,
    {
        data.push(input[i]);
        i += 1;
        assert(data@ =~= input@.subrange(0, i as int));
    }
    assert(input@.subrange(0, input@.len() as int) =~= input@);
    data
}

/// What `aes_block_mode` computes before unpadding, given its checks pass.
pub open spec fn block_mode_spec(cbc: bool, encrypt: bool, key: Seq<u8>, iv: Seq<u8>, data: Seq<u8>) -> Seq<u8> {
    let chain = if cbc { iv } else { Seq::new(16, |i: int| 0u8) };
    if encrypt { enc_blocks(key, cbc, chain, data) } else { dec_blocks(key, cbc, chain, data) }
}

/// AES over whole blocks (ECB, or CBC when the transformation names
/// `/CBC/`), encrypting for `mode` 1 and decrypting for 2, with PKCS#5/#7
/// padding when the transformation ends in `PKCS5PADDING` or
/// `PKCS7PADDING`.
/// What [`aes_block_mode`] gives for a transformation, mode, key, IV and
/// input: the output bytes, or `None` when it fails.
pub open spec fn block_mode_result(t: Seq<char>, mode: u8, key: Seq<u8>, iv: Seq<u8>, input: Seq<u8>) -> Option<Seq<u8>> {
    let cbc = has_sub(t, "/CBC/"@);
    let padded = ends(t, "PKCS5PADDING"@) || ends(t, "PKCS7PADDING"@);
    let data = if mode == 1 && padded { pad(input) } else { input };
    if data.len() % 16 != 0 {
        None
    } else if cbc && iv.len() != 16 {
        None
    } else if data.len() == 0 && mode != 1 && mode != 2 {
        Some(Seq::empty())
    } else if data.len() > 0 && !key_ok(key) {
        None
    } else if mode != 1 && mode != 2 {
        None
    } else if mode == 1 {
        Some(block_mode_spec(cbc, true, key, iv, data))
    } else {
        let o = block_mode_spec(cbc, false, key, iv, data);
        if padded {
            if unpad_ok(o) { Some(unpad(o)) } else { None }
        } else {
            Some(o)
        }
    }
}

#[verifier::loop_isolation(false)]
pub fn aes_block_mode(transformation: &str, mode: u8, key: &[u8], iv: &[u8], input: &[u8]) -> (r: Result<Vec<u8>, &'static str>)
    ensures
        r matches Ok(v) ==> block_mode_result(transformation@, mode, key@, iv@, input@) == Some(v@),
        r is Err ==> block_mode_result(transformation@, mode, key@, iv@, input@) is None,
        ({
            let cbc = has_sub(transformation@, "/CBC/"@);
            let padded = ends(transformation@, "PKCS5PADDING"@) || ends(transformation@, "PKCS7PADDING"@);
            let data = if mode == 1 && padded { pad(input@) } else { input@ };
            &&& data.len() % 16 != 0 ==> r is Err
            &&& data.len() % 16 == 0 && cbc && iv@.len() != 16 ==> r is Err
            &&& data.len() % 16 == 0 && (!cbc || iv@.len() == 16) && data.len() > 0 && !key_ok(key@) ==> r is Err
            &&& data.len() % 16 == 0 && (!cbc || iv@.len() == 16) && data.len() > 0 && mode != 1 && mode != 2 ==> r is Err
            &&& data.len() % 16 == 0 && (!cbc || iv@.len() == 16) && (key_ok(key@) || data.len() == 0) && mode == 1
                ==> r == Ok::<Vec<u8>, &'static str>(r->Ok_0) && r->Ok_0@ == block_mode_spec(cbc, true, key@, iv@, data)
            &&& data.len() == 0 && (!cbc || iv@.len() == 16) && mode != 1 && mode != 2 ==> (r matches Ok(v) && v@.len() == 0)
            &&& data.len() % 16 == 0 && (!cbc || iv@.len() == 16) && (key_ok(key@) || data.len() == 0) && mode == 2 ==> ({
                let o = block_mode_spec(cbc, false, key@, iv@, data);
                if padded {
                    if unpad_ok(o) { r matches Ok(v) && v@ == unpad(o) } else { r is Err }
                } else {
                    r matches Ok(v) && v@ == o
                }
            })
        }),
{
    proof {
        reveal_strlit("/CBC/");
        reveal_strlit("PKCS5PADDING");
        reveal_strlit("PKCS7PADDING");
    }
    let cbc = str_contains(transformation, "/CBC/");
    let padded = str_ends_with(transformation, "PKCS5PADDING") || str_ends_with(transformation, "PKCS7PADDING");
    let data = if mode == 1 && padded { pad_exec(input) } else { to_vec(input) };
    if data.len() % 16 != 0 {
        return Err("AES input is not block-aligned");
    }
    if cbc && iv.len() != 16 {
        return Err("AES-CBC IV must be 16 bytes");
    }
    let chain0: [u8; 16] = if cbc {
        let v = to_vec(iv);
        block_at(&v, 0)
    } else {
        [0u8; 16]
    };
    proof {
        if cbc {
            assert(iv@.subrange(0, 16) =~= iv@);
        } else {
            assert(chain0@ =~= Seq::new(16, |i: int| 0u8));
        }
    }
    let ghost total = block_mode_spec(cbc, mode == 1, key@, iv@, data@);
    let mut out: Vec<u8> = Vec::new();
    let mut chain = chain0;
    let mut at: usize = 0;
    assert(data@.subrange(0, data@.len() as int) =~= data@);
    while at < data.len()
        invariant
            data@.len() % 16 == 0,
            at % 16 == 0,
            at <= data@.len(),
            at > 0 ==> key_ok(key@) && (mode == 1 || mode == 2),
            mode != 1 && mode != 2 ==> out@.len() == 0,
            mode == 1 ==> total == out@ + enc_blocks(key@, cbc, chain@, data@.subrange(at as int, data@.len() as int)),
            mode == 2 ==> total == out@ + dec_blocks(key@, cbc, chain@, data@.subrange(at as int, data@.len() as int)),
        decreases data@.len() - at,
    {
        let block = block_at(&data, at);
        if mode == 1 {
            let inb = if cbc { xor_block(&block, &chain) } else { block };
            let c = match crypt_block(key, &inb, true) {
                Some(c) => c,
                None => return Err("invalid AES key"),
            };
            proof { lemma_enc_step(key@, cbc, chain@, data@, at as int); }
            push_block(&mut out, &c);
            if cbc {
                chain = c;
            } else {
                chain = c;
            }
        } else if mode == 2 {
            let p0 = match crypt_block(key, &block, false) {
                Some(p) => p,
                None => return Err("invalid AES key"),
            };
            let p = if cbc { xor_block(&p0, &chain) } else { p0 };
            proof { lemma_dec_step(key@, cbc, chain@, data@, at as int); }
            push_block(&mut out, &p);
            chain = block;
        } else {
            return Err("unsupported Cipher mode");
        }
        at = at + 16;
    }
    proof {
        let rest = data@.subrange(data@.len() as int, data@.len() as int);
        assert(rest =~= Seq::<u8>::empty());
        assert(enc_blocks(key@, cbc, chain@, rest) == Seq::<u8>::empty());
        assert(dec_blocks(key@, cbc, chain@, rest) == Seq::<u8>::empty());
        if mode == 1 || mode == 2 {
            assert(out@ + Seq::<u8>::empty() =~= out@);
            assert(out@ =~= total);
        }
    }
    if mode == 2 && padded {
        let n = out.len();
        if n == 0 {
            return Err("invalid PKCS padding");
        }
        let padding = out[n - 1] as usize;
        if padding == 0 || padding > 16 || padding > n {
            return Err("invalid PKCS padding");
        }
        let mut k: usize = n - padding;
        while k < n
            invariant
                n == out@.len(),
                padding == out@.last(),
                n - padding <= k <= n,
                forall|i: int| n - padding <= i < k ==> out@[i] == padding,
            decreases n - k,
        {
            if out[k] as usize != padding {
                return Err("invalid PKCS padding");
            }
            k += 1;
        }
        out.truncate(n - padding);
        return Ok(out);
    }
    Ok(out)
}

proof fn lemma_xor_twice(a: Seq<u8>, c: Seq<u8>)
    requires
        a.len() == 16,
    ensures
        xor16(xor16(a, c), c) == a,
{
    assert forall|i: int| 0 <= i < 16 implies #[trigger] xor16(xor16(a, c), c)[i] == a[i] by {
        let x = a[i];
        let y = c[i];
        assert((x ^ y) ^ y == x) by (bit_vector);
    }
    assert(xor16(xor16(a, c), c) =~= a);
}

/// Decryption undoes encryption block by block (given that AES decryption
/// inverts AES encryption under the key).
proof fn lemma_blocks_roundtrip(key: Seq<u8>, cbc: bool, chain: Seq<u8>, d: Seq<u8>)
    requires
        d.len() % 16 == 0,
        chain.len() == 16,
        forall|b: Seq<u8>| b.len() == 16 ==> #[trigger] block_dec(key, block_enc(key, b)) == b,
        forall|b: Seq<u8>| b.len() == 16 ==> (#[trigger] block_enc(key, b)).len() == 16,
    ensures
        dec_blocks(key, cbc, chain, enc_blocks(key, cbc, chain, d)) == d,
    decreases d.len(),
{
    if d.len() < 16 {
        assert(d.len() == 0);
        assert(enc_blocks(key, cbc, chain, d) == Seq::<u8>::empty());
        assert(d =~= Seq::<u8>::empty());
    } else {
        let d0 = d.subrange(0, 16);
        let rest = d.subrange(16, d.len() as int);
        let inb = if cbc { xor16(d0, chain) } else { d0 };
        assert(inb.len() == 16);
        let c = block_enc(key, inb);
        let e = enc_blocks(key, cbc, c, rest);
        assert(enc_blocks(key, cbc, chain, d) == c + e);
        lemma_blocks_roundtrip(key, cbc, c, rest);
        let ce = c + e;
        assert(ce.subrange(0, 16) =~= c);
        assert(ce.subrange(16, ce.len() as int) =~= e);
        assert(ce.len() >= 16);
        let p0 = block_dec(key, c);
        assert(p0 == inb);
        if cbc {
            lemma_xor_twice(d0, chain);
        }
        assert(dec_blocks(key, cbc, chain, ce) == d0 + rest);
        assert(d0 + rest =~= d);
    }
}

/// PKCS padding is removed exactly.
proof fn lemma_pad_unpad(p: Seq<u8>)
    ensures
        pad(p).len() % 16 == 0,
        unpad_ok(pad(p)),
        unpad(pad(p)) == p,
{
    let n = 16 - p.len() % 16;
    let q = pad(p);
    assert(1 <= n <= 16);
    assert(q.len() == p.len() + n);
    assert((p.len() + n) % 16 == 0) by {
        assert(p.len() == 16 * (p.len() / 16) + p.len() % 16);
    }
    assert(q.last() == n as u8);
    assert(q.subrange(0, q.len() - q.last()) =~= p);
}

/// Decrypting what `aes_block_mode` encrypted with padding gives the input
/// back: the padded data decrypts block by block to itself and the padding
/// comes off exactly, for ECB and CBC alike, given that AES decryption
/// inverts AES encryption under the key.
pub proof fn lemma_block_mode_roundtrip(key: Seq<u8>, cbc: bool, iv: Seq<u8>, p: Seq<u8>)
    requires
        iv.len() == 16,
        forall|b: Seq<u8>| b.len() == 16 ==> #[trigger] block_dec(key, block_enc(key, b)) == b,
        forall|b: Seq<u8>| b.len() == 16 ==> (#[trigger] block_enc(key, b)).len() == 16,
    ensures
        unpad_ok(block_mode_spec(cbc, false, key, iv, block_mode_spec(cbc, true, key, iv, pad(p)))),
        unpad(block_mode_spec(cbc, false, key, iv, block_mode_spec(cbc, true, key, iv, pad(p)))) == p,
{
    lemma_pad_unpad(p);
    let chain = if cbc { iv } else { Seq::new(16, |i: int| 0u8) };
    lemma_blocks_roundtrip(key, cbc, chain, pad(p));
}

} // verus!
