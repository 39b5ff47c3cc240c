use aes_gcm::aead::{Aead, KeyInit};
use aes_gcm::{Aes256Gcm, Nonce};
use photokeep_verifier::crypto::{check_cipher_key, decrypt_data, decrypt_video_block, opened_or};
use photokeep_verifier::error::AppError;

fn seal(key: &[u8], nonce: &[u8; 12], plain: &[u8]) -> Vec<u8> {
    let cipher = Aes256Gcm::new_from_slice(key).unwrap();
    let mut out = nonce.to_vec();
    out.extend(cipher.encrypt(Nonce::from_slice(nonce), plain).unwrap());
    out
}

#[test]
fn data_file_round_trip() {
    let key = [5u8; 32];
    let sealed = seal(&key, &[9u8; 12], b"hello photo");
    assert_eq!(decrypt_data(&sealed, &key), Ok(b"hello photo".to_vec()));
    let empty = seal(&key, &[1u8; 12], b"");
    assert_eq!(decrypt_data(&empty, &key), Ok(Vec::new()));
}

#[test]
fn data_file_errors() {
    let key = [5u8; 32];
    let mut sealed = seal(&key, &[9u8; 12], b"hello photo");
    assert_eq!(decrypt_data(&sealed, &[5u8; 31]), Err(AppError::InvalidKeyLength));
    assert_eq!(decrypt_data(&sealed[..11], &key), Err(AppError::DataTooShort));
    assert_eq!(decrypt_data(&sealed, &[6u8; 32]), Err(AppError::DecryptFailed));
    let last = sealed.len() - 1;
    sealed[last] ^= 1;
    assert_eq!(decrypt_data(&sealed, &key), Err(AppError::DecryptFailed));
    assert_eq!(decrypt_data(&[0u8; 12], &key), Err(AppError::DecryptFailed));
}

#[test]
fn video_block_round_trip() {
    let key = [7u8; 32];
    let plain = vec![42u8; 100];
    let block = seal(&key, &[3u8; 12], &plain);
    assert_eq!(block.len(), plain.len() + 28);
    assert_eq!(decrypt_video_block(&key, &block, 4), Ok(plain));
    assert_eq!(decrypt_video_block(&[8u8; 32], &block, 4), Err(AppError::VideoBlockFailed(4)));
}

#[test]
fn key_length_check() {
    assert_eq!(check_cipher_key(&[0u8; 32]), Ok(()));
    assert_eq!(check_cipher_key(&[0u8; 16]), Err(AppError::InvalidKeyLength));
    assert_eq!(check_cipher_key(&[]), Err(AppError::InvalidKeyLength));
}

#[test]
fn decryption_outcome() {
    assert_eq!(opened_or(Some(vec![1, 2]), AppError::DecryptFailed), Ok(vec![1, 2]));
    assert_eq!(opened_or(None, AppError::VideoBlockFailed(2)), Err(AppError::VideoBlockFailed(2)));
}
