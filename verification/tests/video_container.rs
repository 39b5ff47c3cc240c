use photokeep_verifier::error::AppError;
use photokeep_verifier::video::{
    has_video_magic, parse_video_header, video_block_plannable, video_block_read_len, VideoHeader,
};

fn header(block_size: u32, blocks: u32, plain_size: u64) -> [u8; 32] {
    let mut h = [0u8; 32];
    h[..8].copy_from_slice(b"PKVIDEO1");
    h[8..12].copy_from_slice(&block_size.to_be_bytes());
    h[12..16].copy_from_slice(&blocks.to_be_bytes());
    h[16..24].copy_from_slice(&plain_size.to_be_bytes());
    h[24..].copy_from_slice(&[7u8; 8]);
    h
}

#[test]
fn header_fields_are_big_endian() {
    let h = parse_video_header(&header(0x0102_0304, 3, 0x0a0b_0c0d_0e0f_1011)).unwrap();
    assert_eq!(h, VideoHeader { block_size: 0x0102_0304, blocks: 3, plain_size: 0x0a0b_0c0d_0e0f_1011 });
}

#[test]
fn header_errors() {
    let mut bad = header(1, 1, 1);
    bad[7] = b'2';
    assert_eq!(parse_video_header(&bad), Err(AppError::NotVideo));
    assert_eq!(parse_video_header(&header(0, 1, 1)), Err(AppError::BadVideoHeader));
    assert_eq!(parse_video_header(&header(1, 0, 1)), Err(AppError::BadVideoHeader));
    assert_eq!(parse_video_header(&header(1, 1, 0)), Err(AppError::BadVideoHeader));
}

#[test]
fn magic_detection() {
    assert!(has_video_magic(b"PKVIDEO1rest"));
    assert!(has_video_magic(b"PKVIDEO1"));
    assert!(!has_video_magic(b"PKVIDEO"));
    assert!(!has_video_magic(b"pkvideo1"));
}

#[test]
fn block_plan_covers_plaintext() {
    let h = VideoHeader { block_size: 100, blocks: 3, plain_size: 250 };
    let mut total = 0usize;
    for i in 0..h.blocks {
        assert!(video_block_plannable(&h, i));
        if let Some(n) = video_block_read_len(&h, i) {
            total += n - 28;
        }
    }
    assert_eq!(total, 250);
    assert_eq!(video_block_read_len(&h, 0), Some(128));
    assert_eq!(video_block_read_len(&h, 2), Some(78));
}

#[test]
fn block_plan_ends_early_when_nothing_remains() {
    let h = VideoHeader { block_size: 100, blocks: 3, plain_size: 200 };
    assert_eq!(video_block_read_len(&h, 1), Some(128));
    assert_eq!(video_block_read_len(&h, 2), None);
    // the last block may be longer than a block
    let h2 = VideoHeader { block_size: 10, blocks: 2, plain_size: 35 };
    assert_eq!(video_block_read_len(&h2, 1), Some(25 + 28));
}

#[test]
fn block_plan_undefined_past_plaintext() {
    let h = VideoHeader { block_size: 100, blocks: 3, plain_size: 150 };
    assert!(video_block_plannable(&h, 0));
    assert!(!video_block_plannable(&h, 2));
    assert!(!video_block_plannable(&h, 3));
}
