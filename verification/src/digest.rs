//! Keyed hashes (HMAC over SHA-256, SHA-512, SHA-1 and MD5, from the
//! `hmac`, `sha2`, `sha1` and `md-5` crates) and PBKDF2 key derivation
//! (from the `pbkdf2` crate), and the choice among them by algorithm name.

use vstd::prelude::*;

use hmac::digest::KeyInit;
use hmac::{Hmac, Mac};

use crate::cipher::has_sub;

verus! {

/// HMAC-SHA256 of `data` under `key`.
pub uninterp spec fn hmac_sha256_of(key: Seq<u8>, data: Seq<u8>) -> Seq<u8>;
/// HMAC-SHA512 of `data` under `key`.
pub uninterp spec fn hmac_sha512_of(key: Seq<u8>, data: Seq<u8>) -> Seq<u8>;
/// HMAC-SHA1 of `data` under `key`.
pub uninterp spec fn hmac_sha1_of(key: Seq<u8>, data: Seq<u8>) -> Seq<u8>;
/// HMAC-MD5 of `data` under `key`.
pub uninterp spec fn hmac_md5_of(key: Seq<u8>, data: Seq<u8>) -> Seq<u8>;
/// PBKDF2-HMAC-SHA256: `len` bytes derived from `password` and `salt` in
/// `rounds` rounds.
pub uninterp spec fn pbkdf2_sha256_of(password: Seq<u8>, salt: Seq<u8>, rounds: u32, len: nat) -> Seq<u8>;
/// PBKDF2-HMAC-SHA512.
pub uninterp spec fn pbkdf2_sha512_of(password: Seq<u8>, salt: Seq<u8>, rounds: u32, len: nat) -> Seq<u8>;
/// PBKDF2-HMAC-SHA1.
pub uninterp spec fn pbkdf2_sha1_of(password: Seq<u8>, salt: Seq<u8>, rounds: u32, len: nat) -> Seq<u8>;

/// `Hmac::<Sha256>::new_from_slice` (which takes keys of any length),
/// `update`, `finalize`: the 32-byte tag of `data` under `key`.
#[verifier::external_body]
fn hmac_sha256(key: &[u8], data: &[u8]) -> (r: Vec<u8>)
    ensures
        r@ == hmac_sha256_of(key@, data@),
        r@.len() == 32,
{
    let mut m = <Hmac<sha2::Sha256> as KeyInit>::new_from_slice(key).unwrap();
    m.update(data);
    m.finalize().into_bytes().to_vec()
}

/// `Hmac::<Sha512>`: the 64-byte tag of `data` under `key`.
#[verifier::external_body]
fn hmac_sha512(key: &[u8], data: &[u8]) -> (r: Vec<u8>)
    ensures
        r@ == hmac_sha512_of(key@, data@),
        r@.len() == 64,
{
    let mut m = <Hmac<sha2::Sha512> as KeyInit>::new_from_slice(key).unwrap();
    m.update(data);
    m.finalize().into_bytes().to_vec()
}

/// `Hmac::<Sha1>`: the 20-byte tag of `data` under `key`.
#[verifier::external_body]
fn hmac_sha1(key: &[u8], data: &[u8]) -> (r: Vec<u8>)
    ensures
        r@ == hmac_sha1_of(key@, data@),
        r@.len() == 20,
{
    let mut m = <Hmac<sha1::Sha1> as KeyInit>::new_from_slice(key).unwrap();
    m.update(data);
    m.finalize().into_bytes().to_vec()
}

/// `Hmac::<Md5>`: the 16-byte tag of `data` under `key`.
#[verifier::external_body]
fn hmac_md5(key: &[u8], data: &[u8]) -> (r: Vec<u8>)
    ensures
        r@ == hmac_md5_of(key@, data@),
        r@.len() == 16,
{
    let mut m = <Hmac<md5::Md5> as KeyInit>::new_from_slice(key).unwrap();
    m.update(data);
    m.finalize().into_bytes().to_vec()
}

/// `pbkdf2::pbkdf2_hmac::<Sha256>` filling a buffer of `len` bytes.
#[verifier::external_body]
fn pbkdf2_sha256(password: &[u8], salt: &[u8], rounds: u32, len: usize) -> (r: Vec<u8>)
    ensures
        r@ == pbkdf2_sha256_of(password@, salt@, rounds, len as nat),
        r@.len() == len,
{
    let mut out = vec![0u8; len];
    pbkdf2::pbkdf2_hmac::<sha2::Sha256>(password, salt, rounds, &mut out);
    out
}

/// `pbkdf2::pbkdf2_hmac::<Sha512>` filling a buffer of `len` bytes.
#[verifier::external_body]
fn pbkdf2_sha512(password: &[u8], salt: &[u8], rounds: u32, len: usize) -> (r: Vec<u8>)
    ensures
        r@ == pbkdf2_sha512_of(password@, salt@, rounds, len as nat),
        r@.len() == len,
{
    let mut out = vec![0u8; len];
    pbkdf2::pbkdf2_hmac::<sha2::Sha512>(password, salt, rounds, &mut out);
    out
}

/// `pbkdf2::pbkdf2_hmac::<Sha1>` filling a buffer of `len` bytes.
#[verifier::external_body]
fn pbkdf2_sha1(password: &[u8], salt: &[u8], rounds: u32, len: usize) -> (r: Vec<u8>)
    ensures
        r@ == pbkdf2_sha1_of(password@, salt@, rounds, len as nat),
        r@.len() == len,
{
    let mut out = vec![0u8; len];
    pbkdf2::pbkdf2_hmac::<sha1::Sha1>(password, salt, rounds, &mut out);
    out
}

/// ASCII upper case of one character.
pub open spec fn upper_char(c: char) -> char {
    if 'a' <= c && c <= 'z' { ((c as u32) - 32) as char } else { c }
}

/// ASCII upper case of a string.
pub open spec fn upper(s: Seq<char>) -> Seq<char> {
    s.map_values(|c: char| upper_char(c))
}

/// `s` with ASCII letters in upper case.
pub fn ascii_upper(s: &str) -> (r: String)
    ensures
        r@ == upper(s@),
{
    let n = s.unicode_len();
    let mut out = String::new();
    let mut i: usize = 0;
    while i < n
        invariant
            n == s@.len(),
            i <= n,
            out@ == upper(s@.take(i as int)),
        decreases n - i,
    {
        let c = s.get_char(i);
        let u = if 'a' <= c && c <= 'z' {
            crate::natives::character::code_to_char(c as u32 - 32)
        } else {
            c
        };
        crate::value::push_char(&mut out, u);
        proof {
            assert(s@.take(i + 1) =~= s@.take(i as int).push(c));
            assert(out@ =~= upper(s@.take(i + 1)));
        }
        i += 1;
    }
    proof {
        assert(s@.take(n as int) =~= s@);
    }
    out
}

/// The tag a `javax.crypto.Mac` of algorithm `alg` gives: chosen by the
/// first of `SHA256`, `SHA512`, `SHA1`, `MD5` its upper-case name contains;
/// `None` for any other algorithm.
pub open spec fn mac_spec(alg: Seq<char>, key: Seq<u8>, data: Seq<u8>) -> Option<Seq<u8>> {
    let a = upper(alg);
    if has_sub(a, "SHA256"@) {
        Some(hmac_sha256_of(key, data))
    } else if has_sub(a, "SHA512"@) {
        Some(hmac_sha512_of(key, data))
    } else if has_sub(a, "SHA1"@) {
        Some(hmac_sha1_of(key, data))
    } else if has_sub(a, "MD5"@) {
        Some(hmac_md5_of(key, data))
    } else {
        None
    }
}

/// The tag of `data` under `key` for `Mac` algorithm `alg`.
pub fn mac_compute(alg: &str, key: &[u8], data: &[u8]) -> (r: Option<Vec<u8>>)
    ensures
        r matches Some(t) ==> mac_spec(alg@, key@, data@) == Some(t@),
        r is None ==> mac_spec(alg@, key@, data@) is None,
        r matches Some(t) ==> t@.len() == (if has_sub(upper(alg@), "SHA256"@) { 32int } else if has_sub(upper(alg@), "SHA512"@) { 64int }
            else if has_sub(upper(alg@), "SHA1"@) { 20int } else { 16int }),
{
    let a = ascii_upper(alg);
    if crate::cipher::str_contains(a.as_str(), "SHA256") {
        Some(hmac_sha256(key, data))
    } else if crate::cipher::str_contains(a.as_str(), "SHA512") {
        Some(hmac_sha512(key, data))
    } else if crate::cipher::str_contains(a.as_str(), "SHA1") {
        Some(hmac_sha1(key, data))
    } else if crate::cipher::str_contains(a.as_str(), "MD5") {
        Some(hmac_md5(key, data))
    } else {
        None
    }
}

/// A `Mac` algorithm name picks its hash by what its upper-case name
/// contains, `SHA256` first: a name with `SHA512` (and no `SHA256`) gives the
/// HMAC-SHA512 tag, one with `SHA1` only the HMAC-SHA1 tag, one with `MD5`
/// only the HMAC-MD5 tag, and a name with none of them is refused.
pub proof fn law_mac_hash_by_name(alg: Seq<char>, key: Seq<u8>, data: Seq<u8>)
    ensures
        has_sub(upper(alg), "SHA256"@) ==> mac_spec(alg, key, data) == Some(hmac_sha256_of(key, data)),
        has_sub(upper(alg), "SHA512"@) && !has_sub(upper(alg), "SHA256"@)
            ==> mac_spec(alg, key, data) == Some(hmac_sha512_of(key, data)),
        has_sub(upper(alg), "SHA1"@) && !has_sub(upper(alg), "SHA256"@) && !has_sub(upper(alg), "SHA512"@)
            ==> mac_spec(alg, key, data) == Some(hmac_sha1_of(key, data)),
        has_sub(upper(alg), "MD5"@) && !has_sub(upper(alg), "SHA256"@) && !has_sub(upper(alg), "SHA512"@)
            && !has_sub(upper(alg), "SHA1"@) ==> mac_spec(alg, key, data) == Some(hmac_md5_of(key, data)),
        !has_sub(upper(alg), "SHA256"@) && !has_sub(upper(alg), "SHA512"@) && !has_sub(upper(alg), "SHA1"@)
            && !has_sub(upper(alg), "MD5"@) ==> mac_spec(alg, key, data) is None,
{
}

/// A `SecretKeyFactory` name picks the PBKDF2 hash the same way: `SHA256`
/// first, then `SHA512`, else SHA-1; the derivation runs at least one round
/// and yields at least one byte, `bits` rounded up to whole bytes.
pub proof fn law_pbkdf2_hash_by_name(alg: Seq<char>, password: Seq<u8>, salt: Seq<u8>, iterations: i32, bits: i32)
    ensures
        ({
            let rounds: u32 = if iterations < 1 { 1 } else { iterations as u32 };
            let len: nat = if bits <= 8 { 1 } else { ((bits as int + 7) / 8) as nat };
            &&& has_sub(upper(alg), "SHA256"@) ==> pbkdf2_spec(alg, password, salt, iterations, bits)
                == pbkdf2_sha256_of(password, salt, rounds, len)
            &&& has_sub(upper(alg), "SHA512"@) && !has_sub(upper(alg), "SHA256"@)
                ==> pbkdf2_spec(alg, password, salt, iterations, bits) == pbkdf2_sha512_of(password, salt, rounds, len)
            &&& !has_sub(upper(alg), "SHA512"@) && !has_sub(upper(alg), "SHA256"@)
                ==> pbkdf2_spec(alg, password, salt, iterations, bits) == pbkdf2_sha1_of(password, salt, rounds, len)
            &&& len * 8 >= bits && len * 8 < bits + 8 || bits <= 8
            &&& rounds >= 1 && (iterations >= 1 ==> rounds == iterations)
        }),
{
}

/// Bytes of a key of `bits` bits (at least one byte).
pub open spec fn key_bytes(bits: i32) -> nat {
    let b = if bits < 8 { 8 } else { bits as int };
    ((b + 7) / 8) as nat
}

/// The key a `SecretKeyFactory` of algorithm `alg` derives: PBKDF2 with
/// HMAC-SHA256 or -SHA512 when the upper-case name contains that, else
/// HMAC-SHA1; at least one round and one byte.
pub open spec fn pbkdf2_spec(alg: Seq<char>, password: Seq<u8>, salt: Seq<u8>, iterations: i32, bits: i32) -> Seq<u8> {
    let a = upper(alg);
    let rounds = if iterations < 1 { 1u32 } else { iterations as u32 };
    if has_sub(a, "SHA256"@) {
        pbkdf2_sha256_of(password, salt, rounds, key_bytes(bits))
    } else if has_sub(a, "SHA512"@) {
        pbkdf2_sha512_of(password, salt, rounds, key_bytes(bits))
    } else {
        pbkdf2_sha1_of(password, salt, rounds, key_bytes(bits))
    }
}

/// The key derived for `SecretKeyFactory` algorithm `alg`.
pub fn pbkdf2_compute(alg: &str, password: &[u8], salt: &[u8], iterations: i32, bits: i32) -> (r: Vec<u8>)
    ensures
        r@ == pbkdf2_spec(alg@, password@, salt@, iterations, bits),
        r@.len() == key_bytes(bits),
{
    let a = ascii_upper(alg);
    let rounds: u32 = if iterations < 1 { 1 } else { iterations as u32 };
    let b: i32 = if bits < 8 { 8 } else { bits };
    let len: usize = ((b as i64 + 7) / 8) as usize;
    if crate::cipher::str_contains(a.as_str(), "SHA256") {
        pbkdf2_sha256(password, salt, rounds, len)
    } else if crate::cipher::str_contains(a.as_str(), "SHA512") {
        pbkdf2_sha512(password, salt, rounds, len)
    } else {
        pbkdf2_sha1(password, salt, rounds, len)
    }
}

} // verus!
