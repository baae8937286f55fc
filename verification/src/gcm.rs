//! AES-256-GCM with JCE-compatible IV handling (NIST SP 800-38D): an IV of
//! any length other than 12 bytes is hashed through GHASH into the initial
//! counter block `J0`. GHASH and the counter mode are computed here on top
//! of the raw AES block cipher.

use vstd::prelude::*;

use crate::aes::aes256_enc;

verus! {

/// GCM authentication/input errors.
#[derive(Debug, Clone, Copy, PartialEq, Eq, Structural)]
pub enum GcmError {
    /// Ciphertext shorter than the 16-byte tag.
    TooShort,
    /// Authentication tag did not match.
    TagMismatch,
}

/// The 128-bit big-endian value of a byte sequence (its last 16 bytes
/// count).
pub open spec fn be_value(s: Seq<u8>) -> u128
    decreases s.len(),
{
    if s.len() == 0 { 0 } else { (be_value(s.drop_last()) << 8u32) | (s.last() as u128) }
}

/// The 16 big-endian bytes of `x`.
pub open spec fn be_bytes(x: u128) -> Seq<u8> {
    Seq::new(16, |i: int| ((x >> ((8 * (15 - i)) as u32)) & 0xffu128) as u8)
}

/// The 128-bit value of a block.
pub fn from_be(b: &[u8; 16]) -> (r: u128)
    ensures
        r == be_value(b@),
{
    let mut x: u128 = 0;
    let mut i: usize = 0;
    assert(b@.subrange(0, 0) =~= Seq::<u8>::empty());
    while i < 16
        invariant
            i <= 16,
            x == be_value(b@.subrange(0, i as int)),
        decreases 16 - i,
    {
        assert(b@.subrange(0, i + 1).drop_last() =~= b@.subrange(0, i as int));
        x = (x << 8u32) | (b[i] as u128);
        i += 1;
    }
    assert(b@.subrange(0, 16) =~= b@);
    x
}

/// The 16 big-endian bytes of `x`.
pub fn to_be(x: u128) -> (r: [u8; 16])
    ensures
        r@ == be_bytes(x),
{
    let mut b = [0u8; 16];
    let mut i: usize = 0;
    while i < 16
        invariant
            i <= 16,
            forall|k: int| 0 <= k < i ==> b@[k] == ((x >> ((8 * (15 - k)) as u32)) & 0xffu128) as u8,
        decreases 16 - i,
    {
        b.set(i, ((x >> ((8 * (15 - i)) as u32)) & 0xff) as u8);
        i += 1;
    }
    assert(b@ =~= be_bytes(x));
    b
}

/// The state (z, v) of GF(2^128) multiplication `x * y` (polynomial
/// x^128 + x^7 + x^2 + x + 1, bit-reflected as in SP 800-38D) after the
/// first `k` bits of `x`, most significant first.
pub open spec fn gf_state(x: u128, y: u128, k: nat) -> (u128, u128)
    decreases k,
{
    if k == 0 {
        (0u128, y)
    } else {
        let (z, v) = gf_state(x, y, (k - 1) as nat);
        let i = (128 - k) as u32;
        let z2 = if (x >> i) & 1u128 == 1u128 { z ^ v } else { z };
        let v2 = if v & 1u128 == 1u128 { (v >> 1u32) ^ (0xe1u128 << 120u32) } else { v >> 1u32 };
        (z2, v2)
    }
}

/// GF(2^128) product of `x` and `y` (SP 800-38D, Algorithm 1).
pub open spec fn gf_mul(x: u128, y: u128) -> u128 {
    gf_state(x, y, 128).0
}

/// GF(2^128) multiplication with the GCM polynomial.
pub fn gf_mul_exec(x: u128, y: u128) -> (r: u128)
    ensures
        r == gf_mul(x, y),
{
    let mut z: u128 = 0;
    let mut v = y;
    let mut k: u32 = 0;
    while k < 128
        invariant
            k <= 128,
            (z, v) == gf_state(x, y, k as nat),
        decreases 128 - k,
    {
        let i = 127 - k;
        if (x >> i) & 1 == 1 {
            z = z ^ v;
        }
        let lsb = v & 1;
        v = v >> 1u32;
        if lsb == 1 {
            v = v ^ (0xe1u128 << 120u32);
        }
        k += 1;
    }
    z
}

/// Chunk `at` of `data` (16 bytes, the last one zero-padded).
pub open spec fn padded_chunk(data: Seq<u8>, at: int) -> Seq<u8> {
    Seq::new(16, |i: int| if at + i < data.len() { data[at + i] } else { 0u8 })
}

/// GHASH from state `y` over `data` from offset `at`.
pub open spec fn ghash_from(h: u128, y: u128, data: Seq<u8>, at: nat) -> u128
    decreases data.len() + 16 - at,
{
    if at >= data.len() {
        y
    } else {
        ghash_from(h, gf_mul(y ^ be_value(padded_chunk(data, at as int)), h), data, at + 16)
    }
}

/// GHASH over arbitrary-length input (the final partial block zero-padded).
pub open spec fn ghash_spec(h: u128, data: Seq<u8>) -> u128 {
    ghash_from(h, 0, data, 0)
}

/// GHASH over `data`.
pub fn ghash(h: u128, data: &Vec<u8>) -> (r: u128)
    ensures
        r == ghash_spec(h, data@),
{
    let mut y: u128 = 0;
    let mut at: usize = 0;
    while at < data.len()
        invariant
            ghash_from(h, y, data@, at as nat) == ghash_spec(h, data@),
            at <= data@.len(),
        decreases data@.len() - at,
    {
        let mut b = [0u8; 16];
        let mut i: usize = 0;
        let n = data.len();
        let room = n - at;
        while i < 16
            invariant
                i <= 16,
                n == data@.len(),
                at < data@.len(),
                room == data@.len() - at,
                forall|k: int| 0 <= k < i ==> b@[k] == padded_chunk(data@, at as int)[k],
                forall|k: int| i <= k < 16 ==> b@[k] == 0,
            decreases 16 - i,
        {
            if i < room {
                b.set(i, data[at + i]);
            }
            i += 1;
        }
        assert(b@ =~= padded_chunk(data@, at as int));
        let ghost y0 = y;
        y = gf_mul_exec(y ^ from_be(&b), h);
        if room > 16 {
            at = at + 16;
        } else {
            proof {
                assert(ghash_from(h, y, data@, (at + 16) as nat) == y);
            }
            at = data.len();
            assert(ghash_from(h, y, data@, at as nat) == y);
        }
    }
    y
}

/// `x * 8` as 8 big-endian bytes (the bit length of `x` bytes).
pub open spec fn len_bits_spec(x: usize) -> Seq<u8> {
    let v = vstd::wrapping::u64_specs::wrapping_mul(x as u64, 8);
    Seq::new(8, |i: int| ((v >> ((8 * (7 - i)) as u64)) & 0xffu64) as u8)
}

/// The bit length of `x` bytes as 8 big-endian bytes.
pub fn len_bits(x: usize) -> (r: [u8; 8])
    ensures
        r@ == len_bits_spec(x),
{
    let v = (x as u64).wrapping_mul(8);
    let mut b = [0u8; 8];
    let mut i: usize = 0;
    while i < 8
        invariant
            i <= 8,
            v == vstd::wrapping::u64_specs::wrapping_mul(x as u64, 8),
            forall|k: int| 0 <= k < i ==> b@[k] == ((v >> ((8 * (7 - k)) as u64)) & 0xffu64) as u8,
        decreases 8 - i,
    {
        b.set(i, ((v >> ((8 * (7 - i)) as u64)) & 0xff) as u8);
        i += 1;
    }
    assert(b@ =~= len_bits_spec(x));
    b
}

/// Increment of the low 32 bits (SP 800-38D: `inc32`).
pub open spec fn inc32_spec(j: u128) -> u128 {
    (j & !0xffff_ffffu128) | ((((j & 0xffff_ffffu128) + 1) % 0x1_0000_0000) as u128)
}

pub fn inc32(j0: u128) -> (r: u128)
    ensures
        r == inc32_spec(j0),
{
    assert(j0 & 0xffff_ffffu128 <= 0xffff_ffffu128) by (bit_vector);
    let lo = ((j0 & 0xffff_ffff) + 1) % 0x1_0000_0000;
    (j0 & !0xffff_ffffu128) | lo
}

/// `inc32` applied `k` times.
pub open spec fn ctr_at(j0: u128, k: nat) -> u128
    decreases k,
{
    if k == 0 { j0 } else { inc32_spec(ctr_at(j0, (k - 1) as nat)) }
}

/// `n` zero bytes.
pub open spec fn zeros(n: nat) -> Seq<u8> {
    Seq::new(n, |i: int| 0u8)
}

/// Zero bytes padding `n` bytes to a multiple of 16.
pub open spec fn pad16(n: nat) -> Seq<u8> {
    zeros(((16 - n % 16) % 16) as nat)
}

/// The initial counter block for `iv`: a 12-byte IV followed by the block
/// counter 1, or GHASH of the zero-padded IV and its bit length.
pub open spec fn j0_spec(h: u128, iv: Seq<u8>) -> u128 {
    if iv.len() == 12 {
        be_value(iv + seq![0u8, 0u8, 0u8, 1u8])
    } else {
        ghash_spec(h, iv + pad16(iv.len()) + len_bits_spec(iv.len() as usize))
    }
}

/// Keystream block `k` (0-based): AES of the counter `inc32^(k+1)(J0)`.
pub open spec fn keystream(key: Seq<u8>, j0: u128, k: nat) -> Seq<u8> {
    aes256_enc(key, be_bytes(ctr_at(j0, k + 1)))
}

/// Counter-mode encryption (or decryption) of `data` from `J0`.
pub open spec fn ctr_xor(key: Seq<u8>, j0: u128, data: Seq<u8>) -> Seq<u8> {
    Seq::new(data.len(), |i: int| data[i] ^ keystream(key, j0, (i / 16) as nat)[i % 16])
}

/// The GHASH input for the tag: padded AAD, padded ciphertext, both bit
/// lengths.
pub open spec fn tag_input(aad: Seq<u8>, ct: Seq<u8>) -> Seq<u8> {
    aad + pad16(aad.len()) + ct + pad16(ct.len()) + len_bits_spec(aad.len() as usize) + len_bits_spec(ct.len() as usize)
}

/// The GCM tag `GHASH(tag_input) ^ E_K(J0)`.
pub open spec fn tag_spec(key: Seq<u8>, h: u128, iv: Seq<u8>, aad: Seq<u8>, ct: Seq<u8>) -> Seq<u8> {
    be_bytes(ghash_spec(h, tag_input(aad, ct)) ^ be_value(aes256_enc(key, be_bytes(j0_spec(h, iv)))))
}

/// Sealing: ciphertext then tag.
pub open spec fn seal_spec(key: Seq<u8>, h: u128, iv: Seq<u8>, aad: Seq<u8>, plain: Seq<u8>) -> Seq<u8> {
    let ct = ctr_xor(key, j0_spec(h, iv), plain);
    ct + tag_spec(key, h, iv, aad, ct)
}

/// The hash subkey of a key: the encryption of the zero block.
pub open spec fn gcm_h(key: Seq<u8>) -> u128 {
    be_value(aes256_enc(key, zeros(16)))
}

/// Opening: too short, a tag mismatch, or the plaintext.
pub open spec fn open_spec(key: Seq<u8>, h: u128, iv: Seq<u8>, aad: Seq<u8>, data: Seq<u8>) -> Result<Seq<u8>, GcmError> {
    if data.len() < 16 {
        Err(GcmError::TooShort)
    } else {
        let ct = data.subrange(0, data.len() - 16);
        let tg = data.subrange(data.len() - 16, data.len() as int);
        if tag_spec(key, h, iv, aad, ct) == tg {
            Ok(ctr_xor(key, j0_spec(h, iv), ct))
        } else {
            Err(GcmError::TagMismatch)
        }
    }
}

/// AES-256-GCM context: the key and the hash subkey `H = E_K(0)`.
pub struct Gcm {
    h: u128,
    key: Vec<u8>,
}

/// Appends bytes.
pub(crate) fn append(out: &mut Vec<u8>, b: &[u8])
    ensures
        final(out)@ == old(out)@ + b@,
{
    let mut i: usize = 0;
    while i < b.len()
        invariant
            i <= b@.len(),
            out@ == old(out)@ + b@.subrange(0, i as int),
        decreases b@.len() - i,
    {
        out.push(b[i]);
        i += 1;
        assert(out@ =~= old(out)@ + b@.subrange(0, i as int));
    }
    assert(b@.subrange(0, b@.len() as int) =~= b@);
}

/// The first `k` bytes of `data`.
fn prefix(data: &[u8], k: usize) -> (r: Vec<u8>)
    requires
        k <= data@.len(),
    ensures
        r@ == data@.subrange(0, k as int),
{
    let mut out: Vec<u8> = Vec::new();
    let mut i: usize = 0;
    while i < k
        invariant
            i <= k,
            k <= data@.len(),
            out@ == data@.subrange(0, i as int),
        decreases k - i,
    {
        out.push(data[i]);
        i += 1;
        assert(out@ =~= data@.subrange(0, i as int));
    }
    out
}

/// Appends `n` zero bytes.
fn append_zeros(out: &mut Vec<u8>, n: usize)
    ensures
        final(out)@ == old(out)@ + zeros(n as nat),
{
    let mut i: usize = 0;
    while i < n
        invariant
            i <= n,
            out@ == old(out)@ + zeros(i as nat),
        decreases n - i,
    {
        out.push(0);
        i += 1;
        assert(out@ =~= old(out)@ + zeros(i as nat));
    }
}

impl Gcm {
    /// The key bytes.
    pub closed spec fn key_spec(&self) -> Seq<u8> {
        self.key@
    }

    /// The hash subkey.
    pub closed spec fn h_spec(&self) -> u128 {
        self.h
    }

    /// A context built by [`Gcm::new`].
    pub closed spec fn wf(&self) -> bool {
        &&& self.key@.len() == 32
        &&& self.h == be_value(aes256_enc(self.key@, zeros(16)))
    }

    /// The context for a 256-bit key.
    pub fn new(secret: &[u8; 32]) -> (r: Gcm)
        ensures
            r.wf(),
            r.key_spec() == secret@,
            r.h_spec() == gcm_h(secret@),
    {
        let mut key: Vec<u8> = Vec::new();
        append(&mut key, secret);
        assert(key@ =~= secret@);
        let zero = [0u8; 16];
        assert(zero@ =~= zeros(16));
        let e = crate::aes::aes256_encrypt(key.as_slice(), &zero);
        Gcm { h: from_be(&e), key }
    }

    /// The initial counter block `J0` (SP 800-38D, 7.1).
    fn j0(&self, iv: &[u8]) -> (r: u128)
        ensures
            r == j0_spec(self.h, iv@),
    {
        if iv.len() == 12 {
            let mut j = [0u8; 16];
            let mut i: usize = 0;
            while i < 12
                invariant
                    i <= 12,
                    iv@.len() == 12,
                    forall|k: int| 0 <= k < i ==> j@[k] == iv@[k],
                    forall|k: int| i <= k < 16 ==> j@[k] == 0,
                decreases 12 - i,
            {
                j.set(i, iv[i]);
                i += 1;
            }
            j.set(15, 1);
            assert(j@ =~= iv@ + seq![0u8, 0u8, 0u8, 1u8]);
            from_be(&j)
        } else {
            let pad = (16 - (iv.len() % 16)) % 16;
            let mut buf: Vec<u8> = Vec::new();
            append(&mut buf, iv);
            append_zeros(&mut buf, pad);
            let lb = len_bits(iv.len());
            append(&mut buf, &lb);
            assert(buf@ =~= iv@ + pad16(iv@.len()) + len_bits_spec(iv@.len() as usize));
            ghash(self.h, &buf)
        }
    }

    /// AES of a counter block.
    fn block(&self, counter: u128) -> (r: [u8; 16])
        requires
            self.wf(),
        ensures
            r@ == aes256_enc(self.key@, be_bytes(counter)),
    {
        crate::aes::aes256_encrypt(self.key.as_slice(), &to_be(counter))
    }

    /// The GCM tag over `aad` and `ct` keyed by `iv`.
    fn tag(&self, iv: &[u8], aad: &[u8], ct: &[u8]) -> (r: [u8; 16])
        requires
            self.wf(),
        ensures
            r@ == tag_spec(self.key@, self.h, iv@, aad@, ct@),
    {
        let aad_pad = (16 - (aad.len() % 16)) % 16;
        let ct_pad = (16 - (ct.len() % 16)) % 16;
        let mut buf: Vec<u8> = Vec::new();
        append(&mut buf, aad);
        append_zeros(&mut buf, aad_pad);
        append(&mut buf, ct);
        append_zeros(&mut buf, ct_pad);
        let la = len_bits(aad.len());
        append(&mut buf, &la);
        let lc = len_bits(ct.len());
        append(&mut buf, &lc);
        assert(buf@ =~= tag_input(aad@, ct@));
        let s = ghash(self.h, &buf);
        let e = self.block(self.j0(iv));
        to_be(s ^ from_be(&e))
    }

    /// Counter-mode transform of `data` starting after `j0`.
    fn ctr(&self, j0: u128, data: &[u8]) -> (r: Vec<u8>)
        requires
            self.wf(),
        ensures
            r@ == ctr_xor(self.key@, j0, data@),
    {
        let mut out: Vec<u8> = Vec::new();
        let mut counter = j0;
        let mut at: usize = 0;
        let n = data.len();
        while at < n
            invariant
                self.wf(),
                n == data@.len(),
                at <= n,
                at % 16 == 0,
                counter == ctr_at(j0, (at / 16) as nat),
                out@ == ctr_xor(self.key@, j0, data@).subrange(0, at as int),
            decreases n - at,
        {
            counter = inc32(counter);
            let ks = self.block(counter);
            let ghost kb = (at / 16) as nat;
            assert(ctr_at(j0, kb + 1) == counter);
            let room = n - at;
            let take = if room < 16 { room } else { 16 };
            let mut i: usize = 0;
            while i < take
                invariant
                    i <= take,
                    take <= 16,
                    take <= n - at,
                    n == data@.len(),
                    at % 16 == 0,
                    kb == at / 16,
                    ks@ == keystream(self.key@, j0, kb),
                    out@ == ctr_xor(self.key@, j0, data@).subrange(0, at + i),
                decreases take - i,
            {
                proof {
                    assert((at + i) / 16 == kb && (at + i) % 16 == i as int) by (nonlinear_arith)
                        requires
                            at % 16 == 0,
                            kb == at / 16,
                            i < 16;
                }
                out.push(data[at + i] ^ ks[i]);
                i += 1;
                assert(out@ =~= ctr_xor(self.key@, j0, data@).subrange(0, at + i));
            }
            if room <= 16 {
                proof {
                    assert(out@ =~= ctr_xor(self.key@, j0, data@).subrange(0, n as int));
                    assert(ctr_xor(self.key@, j0, data@).subrange(0, n as int) =~= ctr_xor(self.key@, j0, data@));
                }
                return out;
            }
            at = at + 16;
        }
        assert(ctr_xor(self.key@, j0, data@).subrange(0, n as int) =~= ctr_xor(self.key@, j0, data@));
        out
    }

    /// Encrypts `plain` with `iv`/`aad`: ciphertext followed by the GCM tag.
    pub fn seal(&self, iv: &[u8], aad: &[u8], plain: &[u8]) -> (r: Vec<u8>)
        requires
            self.wf(),
        ensures
            r@ == seal_spec(self.key_spec(), self.h_spec(), iv@, aad@, plain@),
    {
        let j0 = self.j0(iv);
        let mut out = self.ctr(j0, plain);
        let t = self.tag(iv, aad, out.as_slice());
        append(&mut out, &t);
        out
    }

    /// Decrypts `data` (ciphertext followed by the tag): the plaintext when
    /// the tag matches.
    pub fn open(&self, iv: &[u8], aad: &[u8], data: &[u8]) -> (r: Result<Vec<u8>, GcmError>)
        requires
            self.wf(),
        ensures
            match open_spec(self.key_spec(), self.h_spec(), iv@, aad@, data@) {
                Ok(p) => r matches Ok(v) && v@ == p,
                Err(e) => r == Err::<Vec<u8>, GcmError>(e),
            },
    {
        if data.len() < 16 {
            return Err(GcmError::TooShort);
        }
        let n = data.len();
        let ct = prefix(data, n - 16);
        let t = self.tag(iv, aad, ct.as_slice());
        let mut same = true;
        let mut i: usize = 0;
        while i < 16
            invariant
                i <= 16,
                n == data@.len(),
                n >= 16,
                same <==> forall|k: int| 0 <= k < i ==> t@[k] == data@[n - 16 + k],
            decreases 16 - i,
        {
            if t[i] != data[n - 16 + i] {
                same = false;
            }
            i += 1;
        }
        proof {
            assert(same <==> t@ =~= data@.subrange(n - 16, n as int));
        }
        if !same {
            return Err(GcmError::TagMismatch);
        }
        let j0 = self.j0(iv);
        Ok(self.ctr(j0, ct.as_slice()))
    }
}

/// Opening what was sealed with the same key, IV and AAD gives the
/// plaintext back.
pub proof fn lemma_gcm_roundtrip(key: Seq<u8>, h: u128, iv: Seq<u8>, aad: Seq<u8>, plain: Seq<u8>)
    ensures
        open_spec(key, h, iv, aad, seal_spec(key, h, iv, aad, plain)) == Ok::<Seq<u8>, GcmError>(plain),
{
    let j0 = j0_spec(h, iv);
    let ct = ctr_xor(key, j0, plain);
    let tg = tag_spec(key, h, iv, aad, ct);
    let data = ct + tg;
    assert(tg.len() == 16);
    assert(data.subrange(0, data.len() - 16) =~= ct);
    assert(data.subrange(data.len() - 16, data.len() as int) =~= tg);
    assert forall|i: int| 0 <= i < plain.len() implies #[trigger] ctr_xor(key, j0, ct)[i] == plain[i] by {
        let k = keystream(key, j0, (i / 16) as nat)[i % 16];
        let x = plain[i];
        assert((x ^ k) ^ k == x) by (bit_vector);
    }
    assert(ctr_xor(key, j0, ct) =~= plain);
}

/// [`Gcm::open`] undoes [`Gcm::seal`] for the same IV and AAD.
pub proof fn lemma_gcm_open_seal(g: &Gcm, iv: Seq<u8>, aad: Seq<u8>, plain: Seq<u8>)
    ensures
        open_spec(g.key_spec(), g.h_spec(), iv, aad, seal_spec(g.key_spec(), g.h_spec(), iv, aad, plain))
            == Ok::<Seq<u8>, GcmError>(plain),
{
    lemma_gcm_roundtrip(g.key_spec(), g.h_spec(), iv, aad, plain);
}

} // verus!
