//! Telling what a decrypted file is from its first bytes.

use vstd::prelude::*;
use crate::text::{chars_of, equals_text, has_prefix};

verus! {

/// Whether `w` occurs in `s` at index `i`.
pub open spec fn window_at(s: Seq<u8>, i: int, w: Seq<u8>) -> bool {
    0 <= i && i + w.len() <= s.len() && s.subrange(i, i + w.len()) == w
}

/// Whether `w` occurs anywhere in `s` (`s.windows(w.len()).any(..)`).
pub open spec fn has_window(s: Seq<u8>, w: Seq<u8>) -> bool {
    exists|i: int| #[trigger] window_at(s, i, w)
}

/// The bytes of `ftyp`, the ISO media file type box.
pub open spec fn ftyp() -> Seq<u8> {
    seq![0x66u8, 0x74, 0x79, 0x70]
}

/// The HEIF brands: `heic`, `heix`, `hevc`, `hevx`, `heif`, `mif1`, `msf1`.
pub open spec fn heic_brands() -> Seq<Seq<u8>> {
    seq![
        seq![0x68u8, 0x65, 0x69, 0x63],
        seq![0x68u8, 0x65, 0x69, 0x78],
        seq![0x68u8, 0x65, 0x76, 0x63],
        seq![0x68u8, 0x65, 0x76, 0x78],
        seq![0x68u8, 0x65, 0x69, 0x66],
        seq![0x6du8, 0x69, 0x66, 0x31],
        seq![0x6du8, 0x73, 0x66, 0x31],
    ]
}

/// Whether the data is a HEIF image: at least 12 bytes, `ftyp` at offset 4,
/// and a HEIF brand somewhere from offset 8 on.
pub open spec fn is_heic_data(d: Seq<u8>) -> bool {
    &&& d.len() >= 12
    &&& d.subrange(4, 8) == ftyp()
    &&& exists|b: int| 0 <= b < 7 && #[trigger] has_window(d.skip(8), heic_brands()[b])
}

/// The brands that mark an MP4 or QuickTime video: `mp4`, `m4v`, `mov` and
/// `qt  `.
pub open spec fn video_brands() -> Seq<Seq<u8>> {
    seq![
        seq![0x6du8, 0x70, 0x34],
        seq![0x6du8, 0x34, 0x76],
        seq![0x6du8, 0x6f, 0x76],
        seq![0x71u8, 0x74, 0x20, 0x20],
    ]
}

/// Whether the data is an MP4 or QuickTime video: more than 12 bytes,
/// `ftyp` at offset 4, and a video brand within bytes 8 to 64.
pub open spec fn is_mp4_data(d: Seq<u8>) -> bool {
    &&& d.len() > 12
    &&& d.subrange(4, 8) == ftyp()
    &&& exists|b: int| 0 <= b < 4 && #[trigger] has_window(brand_area(d), video_brands()[b])
}

/// Bytes 8 up to 64 (or the end), where an MP4's brands are looked for.
pub open spec fn brand_area(d: Seq<u8>) -> Seq<u8> {
    d.subrange(8, if d.len() < 64 { d.len() as int } else { 64 })
}

pub open spec fn png_signature() -> Seq<u8> {
    seq![0x89u8, 0x50, 0x4e, 0x47, 0x0d, 0x0a, 0x1a, 0x0a]
}

pub open spec fn jpeg_signature() -> Seq<u8> {
    seq![0xffu8, 0xd8, 0xff]
}

pub open spec fn gif87a() -> Seq<u8> {
    seq![0x47u8, 0x49, 0x46, 0x38, 0x37, 0x61]
}

pub open spec fn gif89a() -> Seq<u8> {
    seq![0x47u8, 0x49, 0x46, 0x38, 0x39, 0x61]
}

/// The MIME type that the first bytes of a file show, HEIF taking
/// precedence, then PNG, JPEG, GIF and MP4; `application/octet-stream` for
/// anything else.
pub open spec fn detected_mime(d: Seq<u8>) -> Seq<char> {
    if is_heic_data(d) {
        "image/heic"@
    } else if png_signature().is_prefix_of(d) {
        "image/png"@
    } else if jpeg_signature().is_prefix_of(d) {
        "image/jpeg"@
    } else if gif87a().is_prefix_of(d) || gif89a().is_prefix_of(d) {
        "image/gif"@
    } else if is_mp4_data(d) {
        "video/mp4"@
    } else {
        "application/octet-stream"@
    }
}

/// Whether `w` occurs in `s` at index `i`.
fn window_matches(s: &[u8], i: usize, w: &[u8]) -> (b: bool)
    ensures
        b == window_at(s@, i as int, w@),
{
    if i > s.len() || w.len() > s.len() - i {
        return false;
    }
    let m = w.len();
    let n = s.len();
    let mut k: usize = 0;
    while k < m
        invariant
            m == w@.len(),
            n == s@.len(),
            i + m <= s@.len(),
            k <= m,
            forall|j: int| 0 <= j < k ==> s@[i + j] == w@[j],
        decreases m - k,
    {
        if s[i + k] != w[k] {
            assert(s@.subrange(i as int, i + m)[k as int] != w@[k as int]);
            return false;
        }
        k = k + 1;
    }
    assert(s@.subrange(i as int, i + m) =~= w@);
    true
}

/// Whether `w` occurs anywhere in `s`.
pub fn contains_window(s: &[u8], w: &[u8]) -> (b: bool)
    requires
        w@.len() > 0,
    ensures
        b == has_window(s@, w@),
{
    let n = s.len();
    let mut i: usize = 0;
    while i < n
        invariant
            n == s@.len(),
            i <= n,
            forall|j: int| 0 <= j < i ==> !window_at(s@, j, w@),
        decreases n - i,
    {
        if window_matches(s, i, w) {
            return true;
        }
        i = i + 1;
    }
    assert forall|j: int| !#[trigger] window_at(s@, j, w@) by {
        if 0 <= j < n {
        }
    }
    false
}

/// Whether the data is a HEIF image (`ftyp` box with a HEIF brand).
pub fn is_heic(data: &[u8]) -> (b: bool)
    ensures
        b == is_heic_data(data@),
{
    let ftyp_box: [u8; 4] = [0x66, 0x74, 0x79, 0x70];
    assert(ftyp_box@ == ftyp());
    if data.len() < 12 || !window_matches(data, 4, ftyp_box.as_slice()) {
        assert(data@.len() >= 12 ==> !window_at(data@, 4, ftyp()));
        return false;
    }
    let brands: [[u8; 4]; 7] = [
        [0x68, 0x65, 0x69, 0x63],
        [0x68, 0x65, 0x69, 0x78],
        [0x68, 0x65, 0x76, 0x63],
        [0x68, 0x65, 0x76, 0x78],
        [0x68, 0x65, 0x69, 0x66],
        [0x6d, 0x69, 0x66, 0x31],
        [0x6d, 0x73, 0x66, 0x31],
    ];
    let tail = &data[8..data.len()];
    assert(tail@ == data@.skip(8));
    let ghost bs = heic_brands();
    assert(forall|b: int| 0 <= b < 7 ==> brands@[b]@ == bs[b]);
    for b in 0..7usize
        invariant
            tail@ == data@.skip(8),
            data@.len() >= 12,
            data@.subrange(4, 8) == ftyp(),
            bs == heic_brands(),
            forall|c: int| 0 <= c < 7 ==> brands@[c]@ == bs[c],
            forall|c: int| 0 <= c < b ==> !has_window(data@.skip(8), #[trigger] bs[c]),
    {
        if contains_window(tail, brands[b].as_slice()) {
            assert(has_window(data@.skip(8), heic_brands()[b as int]));
            return true;
        }
    }
    false
}

/// Whether `p` starts `s`.
fn starts_with_bytes(s: &[u8], p: &[u8]) -> (b: bool)
    ensures
        b == p@.is_prefix_of(s@),
{
    let b = window_matches(s, 0, p);
    assert(b ==> p@.is_prefix_of(s@));
    assert(p@.is_prefix_of(s@) ==> window_at(s@, 0, p@));
    b
}

/// The MIME type of a file from its first bytes (at most 512 of them are
/// looked at by the caller).
pub fn detect_kind(data: &[u8]) -> (mime: String)
    ensures
        mime@ == detected_mime(data@),
{
    if is_heic(data) {
        return String::from_str("image/heic");
    }
    let png: [u8; 8] = [0x89, 0x50, 0x4e, 0x47, 0x0d, 0x0a, 0x1a, 0x0a];
    assert(png@ == png_signature());
    if starts_with_bytes(data, png.as_slice()) {
        return String::from_str("image/png");
    }
    let jpeg: [u8; 3] = [0xff, 0xd8, 0xff];
    assert(jpeg@ == jpeg_signature());
    if starts_with_bytes(data, jpeg.as_slice()) {
        return String::from_str("image/jpeg");
    }
    let g7: [u8; 6] = [0x47, 0x49, 0x46, 0x38, 0x37, 0x61];
    let g9: [u8; 6] = [0x47, 0x49, 0x46, 0x38, 0x39, 0x61];
    assert(g7@ == gif87a());
    assert(g9@ == gif89a());
    if starts_with_bytes(data, g7.as_slice()) || starts_with_bytes(data, g9.as_slice()) {
        return String::from_str("image/gif");
    }
    if is_mp4(data) {
        return String::from_str("video/mp4");
    }
    String::from_str("application/octet-stream")
}

/// Whether the data is an MP4 or QuickTime video (see `is_mp4_data`).
fn is_mp4(data: &[u8]) -> (b: bool)
    ensures
        b == is_mp4_data(data@),
{
    let ftyp_box: [u8; 4] = [0x66, 0x74, 0x79, 0x70];
    assert(ftyp_box@ == ftyp());
    if data.len() <= 12 || !window_matches(data, 4, ftyp_box.as_slice()) {
        assert(data@.len() > 12 ==> !window_at(data@, 4, ftyp()));
        return false;
    }
    let end = if data.len() < 64 {
        data.len()
    } else {
        64
    };
    let area = &data[8..end];
    assert(area@ == brand_area(data@));
    let ghost vb = video_brands();
    let mp4: [u8; 3] = [0x6d, 0x70, 0x34];
    let m4v: [u8; 3] = [0x6d, 0x34, 0x76];
    let mov: [u8; 3] = [0x6d, 0x6f, 0x76];
    let qt: [u8; 4] = [0x71, 0x74, 0x20, 0x20];
    assert(mp4@ == vb[0] && m4v@ == vb[1] && mov@ == vb[2] && qt@ == vb[3]);
    let found = contains_window(area, mp4.as_slice()) || contains_window(area, m4v.as_slice())
        || contains_window(area, mov.as_slice()) || contains_window(area, qt.as_slice());
    assert(found ==> exists|b: int| 0 <= b < 4 && #[trigger] has_window(area@, vb[b]));
    assert((exists|b: int| 0 <= b < 4 && #[trigger] has_window(area@, vb[b])) ==> found) by {
        if exists|b: int| 0 <= b < 4 && #[trigger] has_window(area@, vb[b]) {
            let b = choose|b: int| 0 <= b < 4 && #[trigger] has_window(area@, vb[b]);
            assert(b == 0 || b == 1 || b == 2 || b == 3);
        }
    }
    found
}

/// Files are told apart by their leading bytes: `89 50 4E 47 0D 0A 1A 0A`
/// is PNG; `FF D8 FF` is JPEG unless bytes 4 to 8 read `ftyp` (a HEIF box
/// takes precedence); `GIF87a` or `GIF89a` is GIF; an `ftyp` box at offset 4
/// with the brand `heic` from offset 8 on is HEIF; and whatever the data, the
/// type is one of the six that are detected.
pub proof fn lemma_detection_by_signature(d: Seq<u8>)
    ensures
        d.len() >= 8 && d[0] == 0x89 && d[1] == 0x50 && d[2] == 0x4e && d[3] == 0x47 && d[4]
            == 0x0d && d[5] == 0x0a && d[6] == 0x1a && d[7] == 0x0a ==> detected_mime(d)
            == "image/png"@,
        d.len() >= 3 && d[0] == 0xff && d[1] == 0xd8 && d[2] == 0xff && !(d.len() >= 12 && d[4]
            == 0x66 && d[5] == 0x74 && d[6] == 0x79 && d[7] == 0x70) ==> detected_mime(d)
            == "image/jpeg"@,
        d.len() >= 6 && d[0] == 0x47 && d[1] == 0x49 && d[2] == 0x46 && d[3] == 0x38 && (d[4]
            == 0x37 || d[4] == 0x39) && d[5] == 0x61 ==> detected_mime(d) == "image/gif"@,
        (d.len() >= 12 && d[4] == 0x66 && d[5] == 0x74 && d[6] == 0x79 && d[7] == 0x70 && exists|
            i: int|
            8 <= i && i + 4 <= d.len() && #[trigger] d[i] == 0x68 && d[i + 1] == 0x65 && d[i + 2]
                == 0x69 && d[i + 3] == 0x63) ==> detected_mime(d) == "image/heic"@,
        ({
            let m = detected_mime(d);
            ||| m == "image/heic"@
            ||| m == "image/png"@
            ||| m == "image/jpeg"@
            ||| m == "image/gif"@
            ||| m == "video/mp4"@
            ||| m == "application/octet-stream"@
        }),
{
    if d.len() >= 8 && d[4] != 0x66 {
        assert(d.subrange(4, 8)[0] != ftyp()[0]);
    }
    if d.len() >= 8 && (d[0] == 0xff || d[0] == 0x47) {
        assert(!png_signature().is_prefix_of(d)) by {
            assert(d.subrange(0, 8)[0] != png_signature()[0]);
        }
    }
    if d.len() >= 8 && d[0] == 0x89 && d[1] == 0x50 && d[2] == 0x4e && d[3] == 0x47 && d[4] == 0x0d
        && d[5] == 0x0a && d[6] == 0x1a && d[7] == 0x0a {
        assert(d.subrange(0, 8) =~= png_signature());
    }
    if d.len() >= 3 && d[0] == 0xff && d[1] == 0xd8 && d[2] == 0xff {
        assert(d.subrange(0, 3) =~= jpeg_signature());
        if d.len() >= 12 && !(d[4] == 0x66 && d[5] == 0x74 && d[6] == 0x79 && d[7] == 0x70) {
            assert(d.subrange(4, 8) != ftyp()) by {
                if d[4] != 0x66 {
                    assert(d.subrange(4, 8)[0] != ftyp()[0]);
                } else if d[5] != 0x74 {
                    assert(d.subrange(4, 8)[1] != ftyp()[1]);
                } else if d[6] != 0x79 {
                    assert(d.subrange(4, 8)[2] != ftyp()[2]);
                } else {
                    assert(d.subrange(4, 8)[3] != ftyp()[3]);
                }
            }
        }
    }
    if d.len() >= 6 && d[0] == 0x47 && d[1] == 0x49 && d[2] == 0x46 && d[3] == 0x38 && (d[4] == 0x37
        || d[4] == 0x39) && d[5] == 0x61 {
        assert(!jpeg_signature().is_prefix_of(d)) by {
            assert(d.subrange(0, 3)[0] != jpeg_signature()[0]);
        }
        if d.len() >= 8 {
            assert(d.subrange(4, 8)[0] != ftyp()[0]);
        }
        if d[4] == 0x37 {
            assert(d.subrange(0, 6) =~= gif87a());
        } else {
            assert(d.subrange(0, 6) =~= gif89a());
        }
    }
    if d.len() >= 12 && d[4] == 0x66 && d[5] == 0x74 && d[6] == 0x79 && d[7] == 0x70 && exists|
        i: int|
        8 <= i && i + 4 <= d.len() && #[trigger] d[i] == 0x68 && d[i + 1] == 0x65 && d[i + 2] == 0x69
            && d[i + 3] == 0x63 {
        let i = choose|i: int|
            8 <= i && i + 4 <= d.len() && #[trigger] d[i] == 0x68 && d[i + 1] == 0x65 && d[i + 2]
                == 0x69 && d[i + 3] == 0x63;
        assert(d.subrange(4, 8) =~= ftyp());
        let t = d.skip(8);
        assert(t.subrange(i - 8, i - 8 + 4) =~= heic_brands()[0]);
        assert(window_at(t, i - 8, heic_brands()[0]));
        assert(has_window(t, heic_brands()[0]));
    }
}

/// How a decrypted file is previewed.
#[derive(Clone, Copy, Debug, PartialEq, Eq, Structural)]
pub enum PreviewKind {
    /// A HEIF image, shown by the system's web view if it can.
    HeicImage,
    /// Any other image.
    Image,
    /// A video.
    Video,
    /// Anything else: no preview.
    Other,
}

/// How a file of the given MIME type is previewed.
pub open spec fn preview_kind_of(content_type: Seq<char>) -> PreviewKind {
    if content_type == "image/heic"@ || content_type == "image/heif"@ {
        PreviewKind::HeicImage
    } else if "image/"@.is_prefix_of(content_type) {
        PreviewKind::Image
    } else if "video/"@.is_prefix_of(content_type) {
        PreviewKind::Video
    } else {
        PreviewKind::Other
    }
}

/// How a file is previewed follows its MIME type: `image/heic` and
/// `image/heif` as HEIF images, any other `image/...` type as an image, any
/// `video/...` type as a video, and everything else not at all.
pub proof fn lemma_preview_by_type(ct: Seq<char>)
    ensures
        ct == seq!['i', 'm', 'a', 'g', 'e', '/', 'h', 'e', 'i', 'c'] || ct == seq![
            'i',
            'm',
            'a',
            'g',
            'e',
            '/',
            'h',
            'e',
            'i',
            'f',
        ] ==> preview_kind_of(ct) == PreviewKind::HeicImage,
        seq!['i', 'm', 'a', 'g', 'e', '/'].is_prefix_of(ct) && ct != seq![
            'i',
            'm',
            'a',
            'g',
            'e',
            '/',
            'h',
            'e',
            'i',
            'c',
        ] && ct != seq!['i', 'm', 'a', 'g', 'e', '/', 'h', 'e', 'i', 'f'] ==> preview_kind_of(ct)
            == PreviewKind::Image,
        seq!['v', 'i', 'd', 'e', 'o', '/'].is_prefix_of(ct) ==> preview_kind_of(ct)
            == PreviewKind::Video,
        !seq!['i', 'm', 'a', 'g', 'e', '/'].is_prefix_of(ct) && !seq![
            'v',
            'i',
            'd',
            'e',
            'o',
            '/',
        ].is_prefix_of(ct) ==> preview_kind_of(ct) == PreviewKind::Other,
{
    reveal_strlit("image/heic");
    reveal_strlit("image/heif");
    reveal_strlit("image/");
    reveal_strlit("video/");
    assert("image/heic"@ =~= seq!['i', 'm', 'a', 'g', 'e', '/', 'h', 'e', 'i', 'c']);
    assert("image/heif"@ =~= seq!['i', 'm', 'a', 'g', 'e', '/', 'h', 'e', 'i', 'f']);
    assert("image/"@ =~= seq!['i', 'm', 'a', 'g', 'e', '/']);
    assert("video/"@ =~= seq!['v', 'i', 'd', 'e', 'o', '/']);
    if seq!['v', 'i', 'd', 'e', 'o', '/'].is_prefix_of(ct) {
        assert(ct[0] == 'v');
        assert(!"image/"@.is_prefix_of(ct));
        assert(ct != "image/heic"@ && ct != "image/heif"@);
    }
    if seq!['i', 'm', 'a', 'g', 'e', '/'].is_prefix_of(ct) {
        assert(ct[0] == 'i');
    }
    if ct == "image/heic"@ || ct == "image/heif"@ {
        assert("image/"@.is_prefix_of(ct)) by {
            assert(ct.subrange(0, 6) =~= "image/"@);
        }
    }
}

/// How a file of the given MIME type is previewed.
pub fn preview_kind(content_type: &str) -> (k: PreviewKind)
    ensures
        k == preview_kind_of(content_type@),
{
    let cs = chars_of(content_type);
    if equals_text(cs.as_slice(), "image/heic") || equals_text(cs.as_slice(), "image/heif") {
        PreviewKind::HeicImage
    } else if has_prefix(cs.as_slice(), "image/") {
        PreviewKind::Image
    } else if has_prefix(cs.as_slice(), "video/") {
        PreviewKind::Video
    } else {
        PreviewKind::Other
    }
}

} // verus!
