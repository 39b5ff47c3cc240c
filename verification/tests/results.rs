use photokeep_verifier::error::AppError;
use photokeep_verifier::items::{
    heic_image_item, image_item, other_item, prepare_heic_image, prepare_image, prepare_other,
    prepare_video, video_item, ZipItems,
};
use photokeep_verifier::registry::{random_id, ResultRegistry};

#[test]
fn lookup_finds_what_was_registered() {
    let mut reg: ResultRegistry<u32> = ResultRegistry::new();
    let a = "00112233445566778899aabbccddeeff".to_string();
    let b = "ffeeddccbbaa99887766554433221100".to_string();
    assert_eq!(reg.lookup(&a), Err(AppError::ResultMissing));
    reg.insert(&a, 1);
    reg.insert(&b, 2);
    assert_eq!(reg.lookup(&a), Ok(&1));
    assert_eq!(reg.lookup(&b), Ok(&2));
    reg.insert(&a, 3);
    assert_eq!(reg.lookup(&a), Ok(&3));
    assert_eq!(reg.lookup(&b), Ok(&2));
    reg.clear();
    assert_eq!(reg.lookup(&a), Err(AppError::ResultMissing));
    assert_eq!(reg.lookup(&b), Err(AppError::ResultMissing));
}

#[test]
fn ids_that_are_not_lower_hex_find_nothing() {
    let mut reg: ResultRegistry<u32> = ResultRegistry::new();
    let a = "00112233445566778899aabbccddeeff".to_string();
    reg.insert(&a, 7);
    assert_eq!(reg.lookup(&a.to_uppercase()), Err(AppError::ResultMissing));
    assert_eq!(reg.lookup(&a[1..].to_string()), Err(AppError::ResultMissing));
    assert_eq!(reg.lookup(&format!("{}0", a)), Err(AppError::ResultMissing));
    assert_eq!(reg.lookup(&String::new()), Err(AppError::ResultMissing));
}

#[test]
fn random_ids_are_lower_hex() {
    let a = random_id().unwrap();
    let b = random_id().unwrap();
    assert_eq!(a.len(), 32);
    assert!(a.chars().all(|c| c.is_ascii_hexdigit() && !c.is_ascii_uppercase()));
    assert_ne!(a, b);
}

#[test]
fn item_builders() {
    let img = image_item("id1".to_string(), "a.png", "image/png", "/tmp/a.png".to_string());
    assert_eq!((img.kind.as_str(), img.content_type.as_str(), img.note.is_none()), ("image", "image/png", true));
    let heic = heic_image_item("id2".to_string(), "b.heic", "image/heic", "/tmp/b".to_string());
    assert_eq!(heic.kind, "image");
    assert!(heic.note.unwrap().starts_with("HEIC 由系统 WebView 原生预览"));
    let v = video_item("id3".to_string(), "c.mov", None, "/tmp/c".to_string());
    assert_eq!((v.kind.as_str(), v.content_type.as_str()), ("video", "video/mp4"));
    assert_eq!(v.note.as_deref(), Some("如果内嵌播放器无法播放，请使用系统播放器打开。"));
    let v2 = video_item("id4".to_string(), "d", Some("image/png".to_string()), "/tmp/d".to_string());
    assert_eq!(v2.content_type, "image/png");
    let o = other_item("id5".to_string(), "e.bin", "application/octet-stream");
    assert_eq!((o.kind.as_str(), o.preview_url.as_str(), o.id.as_str()), ("other", "", "id5"));
    assert_eq!(o.note.as_deref(), Some("已解密，但当前版本无法直接预览此文件类型。"));
}

#[test]
fn zip_items_follow_the_selected_entries() {
    let mut z: ZipItems<u32> = ZipItems::new();
    assert_eq!(z.select(Some("one.enc"), false), Some("one.enc".to_string()));
    assert!(z.is_awaiting());
    z.push(1);
    assert_eq!(z.select(Some("dir"), true), None);
    assert_eq!(z.select(Some("notes.txt"), false), None);
    assert_eq!(z.select(Some("two.ENC"), false), Some("two.ENC".to_string()));
    z.push(2);
    assert!(!z.is_awaiting());
    assert_eq!(z.finish(), Ok(vec![1, 2]));
}

#[test]
fn zip_without_encrypted_files_fails() {
    let mut z: ZipItems<u32> = ZipItems::new();
    assert_eq!(z.select(Some("photo.jpg"), false), None);
    assert_eq!(z.finish(), Err(AppError::NoEncryptedEntries));
    assert_eq!(ZipItems::<u8>::new().finish(), Err(AppError::NoEncryptedEntries));
}

#[test]
fn prepared_items_are_registered_under_their_id() {
    let mut reg: ResultRegistry<&str> = ResultRegistry::new();
    let img = prepare_image(&mut reg, "img", "a.png", "image/png", "/t/a.png".to_string()).unwrap();
    let heic = prepare_heic_image(&mut reg, "heic", "b.heic", "image/heic", "/t/b".to_string()).unwrap();
    let vid = prepare_video(&mut reg, "vid", "c.mov", Some("video/mp4".to_string()), "/t/c".to_string()).unwrap();
    let other = prepare_other(&mut reg, "other", "d.bin", "application/octet-stream").unwrap();
    assert_eq!(reg.lookup(&img.id), Ok(&"img"));
    assert_eq!(reg.lookup(&heic.id), Ok(&"heic"));
    assert_eq!(reg.lookup(&vid.id), Ok(&"vid"));
    assert_eq!(reg.lookup(&other.id), Ok(&"other"));
    assert_eq!((img.kind.as_str(), img.name.as_str(), img.preview_url.as_str()), ("image", "a.png", "/t/a.png"));
    assert_eq!(other.preview_url, "");
    assert_eq!(img.id.len(), 32);
}

#[test]
fn register_hands_out_the_id_it_stored_under() {
    let mut reg: ResultRegistry<&str> = ResultRegistry::new();
    let id1 = reg.register("first").unwrap();
    let id2 = reg.register("second").unwrap();
    assert_eq!(id1.len(), 32);
    assert_eq!(reg.lookup(&id1), Ok(&"first"));
    assert_eq!(reg.lookup(&id2), Ok(&"second"));
}
