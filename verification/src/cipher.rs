//! The cipher codec: AES-256-CBC with PKCS#7 padding under a 32-byte key.
//!
//! `encrypt_chunk` draws a fresh random 16-byte IV for every call and
//! returns the blob `IV || ciphertext`; `decrypt_chunk` takes such a blob
//! apart and undoes it.  A key of any other length is rejected before any
//! cryptographic work; a malformed or truncated blob fails cleanly, never
//! panics.  The cipher itself is the outside crate's: the two calls into it
//! sit behind trusted wrappers whose contracts name their results.

use vstd::prelude::*;

use crate::ProtocolError;
use crate::bytes::copy_range;
use aes::cipher::{BlockDecryptMut, BlockEncryptMut, KeyIvInit};
use rand::RngCore;

verus! {

/// The padded AES-256-CBC ciphertext of `data` under `key` and `iv`: a
/// function of its three arguments alone, named here so contracts can speak
/// of it.
pub uninterp spec fn aes_cbc_enc(key: Seq<u8>, iv: Seq<u8>, data: Seq<u8>) -> Seq<u8>;

/// What AES-256-CBC decryption with PKCS#7 unpadding makes of `ct` under
/// `key` and `iv`: the plaintext, or nothing when the length or padding is
/// wrong.
pub uninterp spec fn aes_cbc_dec(key: Seq<u8>, iv: Seq<u8>, ct: Seq<u8>) -> Option<Seq<u8>>;

/// The length of a PKCS#7-padded ciphertext for an `n`-byte plaintext: the
/// next multiple of the 16-byte block size, a full extra block when `n`
/// already sits on a boundary.
pub open spec fn padded_len(n: int) -> int {
    n + 16 - (n % 16)
}

/// What decrypting a blob under `key` yields: the blob must hold at least
/// the 16-byte IV, and the rest must decrypt and unpad under that IV.
pub open spec fn decrypt_spec(key: Seq<u8>, blob: Seq<u8>) -> Option<Seq<u8>> {
    if blob.len() < 16 {
        None
    } else {
        aes_cbc_dec(key, blob.subrange(0, 16), blob.subrange(16, blob.len() as int))
    }
}

/// Relies on rand::rngs::OsRng::fill_bytes: fills a buffer of the asked
/// length with cryptographically secure random bytes.  Nothing is promised
/// of the bytes themselves.
#[verifier::external_body]
pub(crate) fn random_bytes(n: usize) -> (r: Vec<u8>)
    ensures
        r@.len() == n,
{
    let mut buf = vec![0u8; n];
    rand::rngs::OsRng.fill_bytes(&mut buf);
    buf
}

/// Relies on cbc::Encryptor::<aes::Aes256>::encrypt_padded_vec_mut with
/// PKCS#7 padding: the ciphertext is a function of key, IV and plaintext
/// alone, exactly one block boundary past the plaintext's length, and
/// decrypting it under the same key and IV gives the plaintext back.
#[verifier::external_body]
fn aes_cbc_encrypt(key: &Vec<u8>, iv: &Vec<u8>, data: &Vec<u8>) -> (r: Vec<u8>)
    requires
        key@.len() == 32,
        iv@.len() == 16,
        data@.len() + 16 <= usize::MAX,
    ensures
        r@ == aes_cbc_enc(key@, iv@, data@),
        r@.len() == padded_len(data@.len() as int),
        aes_cbc_dec(key@, iv@, r@) == Some(data@),
{
    let enc = cbc::Encryptor::<aes::Aes256>::new_from_slices(key.as_slice(), iv.as_slice())
        .unwrap();
    enc.encrypt_padded_vec_mut::<block_padding::Pkcs7>(data.as_slice())
}

/// Relies on cbc::Decryptor::<aes::Aes256>::decrypt_padded_vec_mut with
/// PKCS#7 unpadding: fails on an empty ciphertext, on a length off the
/// 16-byte block grid, and on malformed padding; a recovered plaintext is
/// shorter than the ciphertext by the padding.
#[verifier::external_body]
fn aes_cbc_decrypt(key: &Vec<u8>, iv: &Vec<u8>, ct: &Vec<u8>) -> (r: Option<Vec<u8>>)
    requires
        key@.len() == 32,
        iv@.len() == 16,
    ensures
        (r matches Some(p) ==> aes_cbc_dec(key@, iv@, ct@) == Some(p@) && p@.len() + 1
            <= ct@.len()),
        (r is None ==> aes_cbc_dec(key@, iv@, ct@) is None),
        ct@.len() == 0 || ct@.len() % 16 != 0 ==> r is None,
{
    let dec = cbc::Decryptor::<aes::Aes256>::new_from_slices(key.as_slice(), iv.as_slice())
        .unwrap();
    match dec.decrypt_padded_vec_mut::<block_padding::Pkcs7>(ct.as_slice()) {
        Ok(p) => Some(p),
        Err(_) => None,
    }
}

/// Encrypt `data` under the 32-byte `key`: a fresh random 16-byte IV,
/// then the padded AES-256-CBC ciphertext under that IV.  The blob it
/// returns decrypts back to `data` under the same key; a key of any other
/// length is rejected before any cryptographic work.
pub fn encrypt_chunk(data: &Vec<u8>, key: &Vec<u8>) -> (r: Result<Vec<u8>, ProtocolError>)
    requires
        data@.len() + 32 <= usize::MAX,
    ensures
        key@.len() != 32 ==> r == Err::<Vec<u8>, ProtocolError>(ProtocolError::InvalidKey),
        (key@.len() == 32 ==> (r matches Ok(blob) && blob@.len() == 16 + padded_len(
            data@.len() as int,
        ) && blob@.subrange(16, blob@.len() as int) == aes_cbc_enc(
            key@,
            blob@.subrange(0, 16),
            data@,
        ) && decrypt_spec(key@, blob@) == Some(data@))),
{
    if key.len() != 32 {
        return Err(ProtocolError::InvalidKey);
    }
    let iv = random_bytes(16);
    let ct = aes_cbc_encrypt(key, &iv, data);
    let mut blob = iv;
    let ghost iv_view = blob@;
    blob.extend_from_slice(ct.as_slice());
    proof {
        assert(blob@.subrange(0, 16) =~= iv_view);
        assert(blob@.subrange(16, blob@.len() as int) =~= ct@);
    }
    Ok(blob)
}

/// Decrypt a blob produced by `encrypt_chunk`: reject a key that is not 32
/// bytes, fail on a blob shorter than its IV, on a ciphertext off the block
/// grid and on bad padding, and otherwise return the plaintext.
pub fn decrypt_chunk(data: &Vec<u8>, key: &Vec<u8>) -> (r: Result<Vec<u8>, ProtocolError>)
    ensures
        key@.len() != 32 ==> r == Err::<Vec<u8>, ProtocolError>(ProtocolError::InvalidKey),
        key@.len() == 32 && decrypt_spec(key@, data@) is None ==> r == Err::<
            Vec<u8>,
            ProtocolError,
        >(ProtocolError::Decrypt),
        (key@.len() == 32 && decrypt_spec(key@, data@) is Some ==> (r matches Ok(p) && Some(p@)
            == decrypt_spec(key@, data@) && p@.len() + 16 <= data@.len())),
{
    if key.len() != 32 {
        return Err(ProtocolError::InvalidKey);
    }
    if data.len() < 16 {
        return Err(ProtocolError::Decrypt);
    }
    let iv = copy_range(data, 0, 16);
    let ct = copy_range(data, 16, data.len());
    match aes_cbc_decrypt(key, &iv, &ct) {
        Some(p) => Ok(p),
        None => Err(ProtocolError::Decrypt),
    }
}

} // verus!
