//! AES-256-GCM decryption of data files and of video blocks. Both put the
//! 12-byte nonce in front of the ciphertext, whose last 16 bytes are the tag.

use vstd::prelude::*;
use aes_gcm::aead::{Aead, KeyInit};
use aes_gcm::{Aes256Gcm, Key, Nonce};
use crate::error::AppError;
use crate::key::opt_bytes;

verus! {

/// Bytes of the nonce that precedes each ciphertext.
pub const NONCE_SIZE: usize = 12;

/// What AES-256-GCM decryption (empty associated data) of `sealed` under
/// `key` and `nonce` yields: the plaintext, or `None` where the tag does not
/// authenticate.
pub uninterp spec fn aes256gcm_opening(key: Seq<u8>, nonce: Seq<u8>, sealed: Seq<u8>) -> Option<
    Seq<u8>,
>;

/// Whether AES-256-GCM accepts the key (`KeyInit::new_from_slice`).
///
/// Trusted: `new_from_slice` returns `InvalidLength` exactly when the key is
/// not 32 bytes long, as its source shows.
#[verifier::external_body]
fn aes256gcm_accepts_key(key: &[u8]) -> (ok: bool)
    ensures
        ok == (key@.len() == 32),
{
    Aes256Gcm::new_from_slice(key).is_ok()
}

/// Decrypts and authenticates `sealed` (`Aead::decrypt` of `Aes256Gcm`).
///
/// Trusted: the result is claimed to be the named function
/// `aes256gcm_opening` of key, nonce and ciphertext, with `None` for the
/// `aead::Error`; and, as the source shows (the tag is split off the end,
/// the rest is decrypted in place), a plaintext is 16 bytes shorter than
/// the ciphertext. Nothing more is claimed of the plaintext.
#[verifier::external_body]
fn aes256gcm_open(key: &[u8], nonce: &[u8], sealed: &[u8]) -> (res: Option<Vec<u8>>)
    requires
        key@.len() == 32,
        nonce@.len() == 12,
    ensures
        opt_bytes(res) == aes256gcm_opening(key@, nonce@, sealed@),
        res matches Some(p) ==> p@.len() + 16 == sealed@.len(),
{
    let cipher = Aes256Gcm::new(Key::<Aes256Gcm>::from_slice(key));
    cipher.decrypt(Nonce::from_slice(nonce), sealed).ok()
}

/// Checks that the cipher accepts the key; the error otherwise.
pub fn check_cipher_key(key: &[u8]) -> (res: Result<(), AppError>)
    ensures
        res is Ok <==> key@.len() == 32,
        res matches Err(e) ==> e == AppError::InvalidKeyLength,
{
    if aes256gcm_accepts_key(key) {
        Ok(())
    } else {
        Err(AppError::InvalidKeyLength)
    }
}

/// The plaintext of a decryption, or the given error where it failed.
pub fn opened_or(opened: Option<Vec<u8>>, failure: AppError) -> (res: Result<Vec<u8>, AppError>)
    ensures
        match opened {
            Some(p) => res == Ok::<Vec<u8>, AppError>(p),
            None => res == Err::<Vec<u8>, AppError>(failure),
        },
{
    match opened {
        Some(p) => Ok(p),
        None => Err(failure),
    }
}

/// Decrypts the contents of an encrypted data file: a 12-byte nonce followed
/// by the AES-256-GCM ciphertext.
pub fn decrypt_data(encrypted: &[u8], key: &[u8]) -> (res: Result<Vec<u8>, AppError>)
    ensures
        match res {
            Ok(p) => {
                &&& key@.len() == 32
                &&& encrypted@.len() >= 12
                &&& aes256gcm_opening(key@, encrypted@.take(12), encrypted@.skip(12)) == Some(p@)
            },
            Err(e) => {
                ||| key@.len() != 32 && e == AppError::InvalidKeyLength
                ||| key@.len() == 32 && encrypted@.len() < 12 && e == AppError::DataTooShort
                ||| key@.len() == 32 && encrypted@.len() >= 12 && aes256gcm_opening(
                    key@,
                    encrypted@.take(12),
                    encrypted@.skip(12),
                ) is None && e == AppError::DecryptFailed
            },
        },
{
    check_cipher_key(key)?;
    if encrypted.len() < NONCE_SIZE {
        return Err(AppError::DataTooShort);
    }
    let nonce = &encrypted[0..NONCE_SIZE];
    let sealed = &encrypted[NONCE_SIZE..encrypted.len()];
    opened_or(aes256gcm_open(key, nonce, sealed), AppError::DecryptFailed)
}

/// Decrypts block `block_idx` of a video: a 12-byte nonce followed by the
/// AES-256-GCM ciphertext. The plaintext is 28 bytes shorter than the block.
pub fn decrypt_video_block(key: &[u8], enc_block: &[u8], block_idx: usize) -> (res: Result<
    Vec<u8>,
    AppError,
>)
    requires
        key@.len() == 32,
        enc_block@.len() >= 12,
    ensures
        match res {
            Ok(p) => aes256gcm_opening(key@, enc_block@.take(12), enc_block@.skip(12)) == Some(p@)
                && p@.len() + 28 == enc_block@.len(),
            Err(e) => aes256gcm_opening(key@, enc_block@.take(12), enc_block@.skip(12)) is None
                && e == AppError::VideoBlockFailed(block_idx),
        },
{
    let nonce = &enc_block[0..NONCE_SIZE];
    let sealed = &enc_block[NONCE_SIZE..enc_block.len()];
    opened_or(aes256gcm_open(key, nonce, sealed), AppError::VideoBlockFailed(block_idx))
}

} // verus!
