use aes_gcm::aead::{Aead, KeyInit};
use aes_gcm::{Aes256Gcm, Nonce};
use photokeep_verifier::decoder::VideoDecoder;
use photokeep_verifier::error::AppError;
use photokeep_verifier::video::VideoHeader;

fn seal(key: &[u8], nonce: u8, plain: &[u8]) -> Vec<u8> {
    let cipher = Aes256Gcm::new_from_slice(key).unwrap();
    let n = [nonce; 12];
    let mut out = n.to_vec();
    out.extend(cipher.encrypt(Nonce::from_slice(&n), plain).unwrap());
    out
}

/// Feeds the blocks of `file` as the decoder asks for them.
fn decode(header: VideoHeader, key: &[u8], file: &[u8]) -> Result<Vec<u8>, AppError> {
    let mut d = VideoDecoder::start(header, key)?;
    let mut at = 0;
    let mut out = Vec::new();
    loop {
        assert!(d.next_block_plannable());
        let n = match d.next_block_len() {
            Some(n) => n,
            None => break,
        };
        let block = &file[at..at + n];
        at += n;
        out.extend(d.open_next(block)?);
    }
    Ok(out)
}

#[test]
fn video_output_is_the_blocks_in_order() {
    let key = [4u8; 32];
    let plain: Vec<u8> = (0..250u32).map(|i| i as u8).collect();
    let mut file = Vec::new();
    for (i, chunk) in plain.chunks(100).enumerate() {
        file.extend(seal(&key, i as u8, chunk));
    }
    file.extend_from_slice(b"trailing bytes are ignored");
    let h = VideoHeader { block_size: 100, blocks: 3, plain_size: 250 };
    assert_eq!(decode(h, &key, &file), Ok(plain));
}

#[test]
fn video_stops_when_nothing_remains() {
    let key = [4u8; 32];
    let mut file = seal(&key, 1, &[1u8; 10]);
    file.extend(seal(&key, 2, &[2u8; 10]));
    let h = VideoHeader { block_size: 10, blocks: 3, plain_size: 20 };
    let mut expected = vec![1u8; 10];
    expected.extend([2u8; 10]);
    assert_eq!(decode(h, &key, &file), Ok(expected));
}

#[test]
fn video_errors() {
    let key = [4u8; 32];
    let mut file = seal(&key, 1, &[1u8; 10]);
    file.extend(seal(&[5u8; 32], 2, &[2u8; 10]));
    let h = VideoHeader { block_size: 10, blocks: 2, plain_size: 20 };
    assert_eq!(decode(h, &key, &file), Err(AppError::VideoBlockFailed(1)));
    assert_eq!(decode(h, &key[..31], &file).err(), Some(AppError::InvalidKeyLength));
    let bad = VideoHeader { block_size: 10, blocks: 3, plain_size: 15 };
    let d = VideoDecoder::start(bad, &key).unwrap();
    assert!(d.next_block_plannable());
}
