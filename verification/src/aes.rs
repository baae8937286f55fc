//! The AES block cipher, from the `aes` crate, one block at a time.

use vstd::prelude::*;

use aes::cipher::{BlockDecrypt, BlockEncrypt, KeyInit};

verus! {

/// AES-128 encryption of one block under `key`.
pub uninterp spec fn aes128_enc(key: Seq<u8>, block: Seq<u8>) -> Seq<u8>;
/// AES-128 decryption of one block under `key`.
pub uninterp spec fn aes128_dec(key: Seq<u8>, block: Seq<u8>) -> Seq<u8>;
/// AES-192 encryption of one block under `key`.
pub uninterp spec fn aes192_enc(key: Seq<u8>, block: Seq<u8>) -> Seq<u8>;
/// AES-192 decryption of one block under `key`.
pub uninterp spec fn aes192_dec(key: Seq<u8>, block: Seq<u8>) -> Seq<u8>;
/// AES-256 encryption of one block under `key`.
pub uninterp spec fn aes256_enc(key: Seq<u8>, block: Seq<u8>) -> Seq<u8>;
/// AES-256 decryption of one block under `key`.
pub uninterp spec fn aes256_dec(key: Seq<u8>, block: Seq<u8>) -> Seq<u8>;

/// `Aes128::encrypt_block` with the key set up by `Aes128::new_from_slice`:
/// the result is the cipher's image of the block, which decryption under
/// the same key maps back to the block.
#[verifier::external_body]
fn aes128_encrypt(key: &[u8], block: &[u8; 16]) -> (r: [u8; 16])
    requires
        key@.len() == 16,
    ensures
        r@ == aes128_enc(key@, block@),
        aes128_dec(key@, r@) == block@,
{
    let c = aes::Aes128::new_from_slice(key).unwrap();
    let mut b = *block;
    c.encrypt_block(aes::cipher::generic_array::GenericArray::from_mut_slice(&mut b));
    b
}

/// `Aes128::decrypt_block`: the inverse image of the block, which
/// encryption under the same key maps back to the block.
#[verifier::external_body]
fn aes128_decrypt(key: &[u8], block: &[u8; 16]) -> (r: [u8; 16])
    requires
        key@.len() == 16,
    ensures
        r@ == aes128_dec(key@, block@),
        aes128_enc(key@, r@) == block@,
{
    let c = aes::Aes128::new_from_slice(key).unwrap();
    let mut b = *block;
    c.decrypt_block(aes::cipher::generic_array::GenericArray::from_mut_slice(&mut b));
    b
}

/// `Aes192::encrypt_block` (see [`aes128_encrypt`]).
#[verifier::external_body]
fn aes192_encrypt(key: &[u8], block: &[u8; 16]) -> (r: [u8; 16])
    requires
        key@.len() == 24,
    ensures
        r@ == aes192_enc(key@, block@),
        aes192_dec(key@, r@) == block@,
{
    let c = aes::Aes192::new_from_slice(key).unwrap();
    let mut b = *block;
    c.encrypt_block(aes::cipher::generic_array::GenericArray::from_mut_slice(&mut b));
    b
}

/// `Aes192::decrypt_block` (see [`aes128_decrypt`]).
#[verifier::external_body]
fn aes192_decrypt(key: &[u8], block: &[u8; 16]) -> (r: [u8; 16])
    requires
        key@.len() == 24,
    ensures
        r@ == aes192_dec(key@, block@),
        aes192_enc(key@, r@) == block@,
{
    let c = aes::Aes192::new_from_slice(key).unwrap();
    let mut b = *block;
    c.decrypt_block(aes::cipher::generic_array::GenericArray::from_mut_slice(&mut b));
    b
}

/// `Aes256::encrypt_block` (see [`aes128_encrypt`]).
#[verifier::external_body]
pub(crate) fn aes256_encrypt(key: &[u8], block: &[u8; 16]) -> (r: [u8; 16])
    requires
        key@.len() == 32,
    ensures
        r@ == aes256_enc(key@, block@),
        aes256_dec(key@, r@) == block@,
{
    let c = aes::Aes256::new_from_slice(key).unwrap();
    let mut b = *block;
    c.encrypt_block(aes::cipher::generic_array::GenericArray::from_mut_slice(&mut b));
    b
}

/// `Aes256::decrypt_block` (see [`aes128_decrypt`]).
#[verifier::external_body]
fn aes256_decrypt(key: &[u8], block: &[u8; 16]) -> (r: [u8; 16])
    requires
        key@.len() == 32,
    ensures
        r@ == aes256_dec(key@, block@),
        aes256_enc(key@, r@) == block@,
{
    let c = aes::Aes256::new_from_slice(key).unwrap();
    let mut b = *block;
    c.decrypt_block(aes::cipher::generic_array::GenericArray::from_mut_slice(&mut b));
    b
}

/// An AES key length: 128, 192 or 256 bits.
pub open spec fn key_ok(key: Seq<u8>) -> bool {
    key.len() == 16 || key.len() == 24 || key.len() == 32
}

/// AES encryption of a block with the variant the key length selects.
pub open spec fn block_enc(key: Seq<u8>, b: Seq<u8>) -> Seq<u8> {
    if key.len() == 16 { aes128_enc(key, b) } else if key.len() == 24 { aes192_enc(key, b) } else { aes256_enc(key, b) }
}

/// AES decryption of a block with the variant the key length selects.
pub open spec fn block_dec(key: Seq<u8>, b: Seq<u8>) -> Seq<u8> {
    if key.len() == 16 { aes128_dec(key, b) } else if key.len() == 24 { aes192_dec(key, b) } else { aes256_dec(key, b) }
}

/// Encrypts (or decrypts) one block with AES-128/192/256 chosen by the key
/// length; `None` for any other key length.
pub fn crypt_block(key: &[u8], block: &[u8; 16], encrypt: bool) -> (r: Option<[u8; 16]>)
    ensures
        key_ok(key@) <==> r is Some,
        r matches Some(b) ==> b@ == (if encrypt { block_enc(key@, block@) } else { block_dec(key@, block@) }),
        r matches Some(b) ==> (encrypt ==> block_dec(key@, b@) == block@),
        r matches Some(b) ==> (!encrypt ==> block_enc(key@, b@) == block@),
{
    let n = key.len();
    if n == 16 {
        Some(if encrypt { aes128_encrypt(key, block) } else { aes128_decrypt(key, block) })
    } else if n == 24 {
        Some(if encrypt { aes192_encrypt(key, block) } else { aes192_decrypt(key, block) })
    } else if n == 32 {
        Some(if encrypt { aes256_encrypt(key, block) } else { aes256_decrypt(key, block) })
    } else {
        None
    }
}

} // verus!
