use photokeep_verifier::names::{
    asset_url, is_enc_name, is_zip_path, plain_name, sanitize_name, trim_enc_suffix, zip_entry_name,
};
use std::path::Path;

fn file_name(p: &str) -> Option<&str> {
    Path::new(p).file_name().and_then(|s| s.to_str())
}

fn extension(p: &str) -> Option<&str> {
    Path::new(p).extension().and_then(|s| s.to_str())
}

#[test]
fn sanitized_names() {
    assert_eq!(sanitize_name(Some("photo.jpg.enc")), "photo.jpg.enc");
    assert_eq!(sanitize_name(Some("dir\\sub\\photo.enc")), "dir_sub_photo.enc");
    assert_eq!(sanitize_name(Some("a/b")), "a_b");
    assert_eq!(sanitize_name(None), "file.enc");
    assert_eq!(sanitize_name(Some("")), "file.enc");
    assert_eq!(sanitize_name(Some(".")), "file.enc");
    assert_eq!(sanitize_name(Some("..")), "..");
    assert_eq!(sanitize_name(file_name("dir/photo.jpg.enc")), "photo.jpg.enc");
    assert_eq!(sanitize_name(file_name("..")), "file.enc");
    assert_eq!(sanitize_name(file_name("/")), "file.enc");
}

#[test]
fn enc_suffix_is_trimmed() {
    assert_eq!(trim_enc_suffix("photo.jpg.enc"), "photo.jpg");
    assert_eq!(trim_enc_suffix("photo.jpg.ENC"), "photo.jpg.ENC");
    assert_eq!(trim_enc_suffix(".enc"), "");
    assert_eq!(trim_enc_suffix("enc"), "enc");
    assert_eq!(plain_name(file_name("/tmp/x/clip.mp4.enc")), "clip.mp4");
    assert_eq!(plain_name(None), "file");
}

#[test]
fn zip_paths() {
    assert!(is_zip_path(extension("/home/u/photos.zip")));
    assert!(is_zip_path(Some("ZiP")));
    assert!(!is_zip_path(extension("photos.zip.enc")));
    assert!(!is_zip_path(extension(".zip")));
    assert!(!is_zip_path(extension("zip")));
    assert!(!is_zip_path(Some("zipx")));
    assert!(!is_zip_path(None));
}

#[test]
fn zip_entries() {
    assert_eq!(zip_entry_name(file_name("dir/img.ENC"), false), Some("img.ENC".to_string()));
    assert_eq!(zip_entry_name(file_name("dir/img.enc"), true), None);
    assert_eq!(zip_entry_name(file_name("dir/img.jpg"), false), None);
    assert_eq!(zip_entry_name(file_name(".."), false), Some("file.enc".to_string()));
    assert!(is_enc_name("x.eNc"));
    assert!(!is_enc_name("x.enc "));
    assert_eq!(asset_url("/tmp/a b/c.png"), "/tmp/a b/c.png");
}

#[test]
fn sanitizing_twice_changes_nothing() {
    for name in [Some("c.enc"), Some("x\\y"), Some(".."), Some("."), Some(""), None, Some("._"), Some("照片.enc")] {
        let once = sanitize_name(name);
        assert_eq!(sanitize_name(Some(&once)), once);
    }
}

#[test]
fn trimming_undoes_the_enc_suffix() {
    for name in ["photo.jpg", "", ".enc", "clip"] {
        assert_eq!(trim_enc_suffix(&format!("{}.enc", name)), name);
    }
}
