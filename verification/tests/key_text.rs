use photokeep_verifier::error::AppError;
use photokeep_verifier::key::{clean_key_text, parse_key, select_key};

fn counting_key() -> Vec<u8> {
    (0u8..32).collect()
}

#[test]
fn standard_base64_key_is_decoded() {
    let key = parse_key("AAECAwQFBgcICQoLDA0ODxAREhMUFRYXGBkaGxwdHh8=").unwrap();
    assert_eq!(key, counting_key());
}

#[test]
fn unpadded_base64_key_is_decoded() {
    let key = parse_key("AAECAwQFBgcICQoLDA0ODxAREhMUFRYXGBkaGxwdHh8").unwrap();
    assert_eq!(key, counting_key());
}

#[test]
fn url_safe_base64_key_is_decoded() {
    let mut expected = Vec::new();
    for _ in 0..10 {
        expected.extend_from_slice(&[0xfb, 0xff, 0xbf]);
    }
    expected.extend_from_slice(&[0xfe, 0xff]);
    assert_eq!(parse_key("-_-_-_-_-_-_-_-_-_-_-_-_-_-_-_-_-_-_-_-__v8=").unwrap(), expected);
    assert_eq!(parse_key("-_-_-_-_-_-_-_-_-_-_-_-_-_-_-_-_-_-_-_-__v8").unwrap(), expected);
    assert_eq!(parse_key("+/+/+/+/+/+/+/+/+/+/+/+/+/+/+/+/+/+/+/+//v8=").unwrap(), expected);
}

#[test]
fn hex_key_is_decoded() {
    let text = "000102030405060708090a0b0c0d0e0f101112131415161718191a1b1c1d1e1f";
    assert_eq!(parse_key(text).unwrap(), counting_key());
    assert_eq!(parse_key(&text.to_uppercase()).unwrap(), counting_key());
}

#[test]
fn tags_whitespace_and_blanks_are_removed() {
    let text = "  base64:AAECAwQFBgcICQoLDA0O\nDxAREhMUFRYXGBkaGxwdHh8=\t ";
    assert_eq!(parse_key(text).unwrap(), counting_key());
    let hex = "\u{3000}hex:00010203 04050607 08090a0b 0c0d0e0f\r\n101112131415161718191a1b1c1d1e1f";
    assert_eq!(parse_key(hex).unwrap(), counting_key());
    assert_eq!(
        parse_key("base64:hex:000102030405060708090a0b0c0d0e0f101112131415161718191a1b1c1d1e1f")
            .unwrap(),
        counting_key()
    );
}

#[test]
fn raw_32_byte_text_is_the_key() {
    let text = "abcdefghijklmnopqrstuvwxyz012345";
    assert_eq!(parse_key(text).unwrap(), text.as_bytes().to_vec());
}

#[test]
fn unusable_key_text_is_refused() {
    assert_eq!(parse_key("short"), Err(AppError::InvalidKeyText));
    assert_eq!(parse_key(""), Err(AppError::InvalidKeyText));
    // base64 of 31 bytes
    assert_eq!(
        parse_key("AAECAwQFBgcICQoLDA0ODxAREhMUFRYXGBkaGxwdHg=="),
        Err(AppError::InvalidKeyText)
    );
    // 62 hex digits
    assert_eq!(
        parse_key("000102030405060708090a0b0c0d0e0f101112131415161718191a1b1c1d1e"),
        Err(AppError::InvalidKeyText)
    );
}

#[test]
fn key_text_cleaning() {
    assert_eq!(clean_key_text("  base64:ab cd\n"), "abcd");
    assert_eq!(clean_key_text("hex:base64:ab"), "base64:ab");
    assert_eq!(clean_key_text("\u{a0}x y\u{2003}"), "xy");
    assert_eq!(clean_key_text(" \t "), "");
}

#[test]
fn key_selection_order() {
    let k1 = vec![1u8; 32];
    let k2 = vec![2u8; 32];
    let cands = vec![None, Some(vec![9u8; 31]), Some(k1.clone()), Some(k2.clone())];
    assert_eq!(select_key(&cands, &[3u8; 32]), Ok(k1));
    let none: Vec<Option<Vec<u8>>> = vec![None, Some(vec![0u8; 48])];
    assert_eq!(select_key(&none, &[3u8; 32]), Ok(vec![3u8; 32]));
    assert_eq!(select_key(&none, &[3u8; 33]), Err(AppError::InvalidKeyText));
}
