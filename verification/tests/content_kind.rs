use photokeep_verifier::kind::{contains_window, detect_kind, is_heic, preview_kind, PreviewKind};

fn ftyp(brand: &[u8]) -> Vec<u8> {
    let mut d = vec![0, 0, 0, 0x18];
    d.extend_from_slice(b"ftyp");
    d.extend_from_slice(brand);
    d.extend_from_slice(&[0u8; 8]);
    d
}

#[test]
fn heic_detection() {
    assert!(is_heic(&ftyp(b"heic")));
    assert!(is_heic(&ftyp(b"mif1")));
    let mut later = ftyp(b"xxxx");
    later.extend_from_slice(b"zzmsf1");
    assert!(is_heic(&later));
    assert!(!is_heic(&ftyp(b"isom")));
    assert!(!is_heic(b"\0\0\0\x18ftyphei"));
    assert!(!is_heic(b"\0\0\0\x18ftop_heic___"));
}

#[test]
fn kinds_by_signature() {
    assert_eq!(detect_kind(&ftyp(b"heix")), "image/heic");
    assert_eq!(detect_kind(b"\x89PNG\r\n\x1a\n...."), "image/png");
    assert_eq!(detect_kind(b"\xff\xd8\xff\xe0"), "image/jpeg");
    assert_eq!(detect_kind(b"GIF87a..."), "image/gif");
    assert_eq!(detect_kind(b"GIF89a"), "image/gif");
    assert_eq!(detect_kind(&ftyp(b"mp42")), "video/mp4");
    assert_eq!(detect_kind(&ftyp(b"M4V ")), "application/octet-stream");
    assert_eq!(detect_kind(&ftyp(b"qt  ")), "video/mp4");
    assert_eq!(detect_kind(b""), "application/octet-stream");
    assert_eq!(detect_kind(b"GIF8"), "application/octet-stream");
}

#[test]
fn mp4_brand_must_be_within_64_bytes() {
    let mut d = ftyp(b"isom");
    d.resize(61, 0);
    d.extend_from_slice(b"mov");
    assert_eq!(detect_kind(&d), "video/mp4");
    let mut far = ftyp(b"isom");
    far.resize(62, 0);
    far.extend_from_slice(b"mov");
    assert_eq!(detect_kind(&far), "application/octet-stream");
    // exactly 12 bytes is too short for the MP4 check
    assert_eq!(detect_kind(b"\0\0\0\x0cftypmp41"), "application/octet-stream");
}

#[test]
fn preview_kinds() {
    assert_eq!(preview_kind("image/heic"), PreviewKind::HeicImage);
    assert_eq!(preview_kind("image/heif"), PreviewKind::HeicImage);
    assert_eq!(preview_kind("image/png"), PreviewKind::Image);
    assert_eq!(preview_kind("video/mp4"), PreviewKind::Video);
    assert_eq!(preview_kind("application/octet-stream"), PreviewKind::Other);
    assert_eq!(preview_kind("image"), PreviewKind::Other);
}

#[test]
fn windows() {
    assert!(contains_window(b"abcdef", b"cde"));
    assert!(!contains_window(b"abcdef", b"efg"));
    assert!(!contains_window(b"", b"a"));
}
