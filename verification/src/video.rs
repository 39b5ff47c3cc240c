//! The encrypted video container: a 32-byte header (magic `PKVIDEO1`, then
//! big-endian block size, block count and plaintext size), followed by the
//! blocks, each a 12-byte nonce and an AES-GCM ciphertext with its 16-byte
//! tag.

use vstd::prelude::*;
use crate::error::AppError;

verus! {

/// The bytes of `PKVIDEO1`.
pub open spec fn video_magic() -> Seq<u8> {
    seq![0x50u8, 0x4b, 0x56, 0x49, 0x44, 0x45, 0x4f, 0x31]
}

/// Bytes that a block adds to its plaintext: a 12-byte nonce and a 16-byte
/// tag.
pub const VIDEO_BLOCK_OVERHEAD: usize = 28;

/// The unsigned big-endian number that `s` encodes.
pub open spec fn be_value(s: Seq<u8>) -> nat
    decreases s.len(),
{
    if s.len() == 0 {
        0
    } else {
        be_value(s.drop_last()) * 256 + s.last() as nat
    }
}

pub open spec fn pow256(n: nat) -> nat
    decreases n,
{
    if n == 0 {
        1
    } else {
        256 * pow256((n - 1) as nat)
    }
}

/// The fields of a video container's header.
#[derive(Clone, Copy, Debug, PartialEq, Eq, Structural)]
pub struct VideoHeader {
    pub block_size: usize,
    pub blocks: usize,
    pub plain_size: u64,
}

/// Whether the first eight bytes are the container's magic.
pub open spec fn starts_with_magic(data: Seq<u8>) -> bool {
    data.len() >= 8 && data.take(8) == video_magic()
}

/// Whether `h` holds the fields that header bytes `data` encode.
pub open spec fn header_fields(data: Seq<u8>, h: VideoHeader) -> bool {
    &&& h.block_size == be_value(data.subrange(8, 12))
    &&& h.blocks == be_value(data.subrange(12, 16))
    &&& h.plain_size == be_value(data.subrange(16, 24))
}

/// Whether some field that the header bytes encode is zero.
pub open spec fn has_zero_field(data: Seq<u8>) -> bool {
    ||| be_value(data.subrange(8, 12)) == 0
    ||| be_value(data.subrange(12, 16)) == 0
    ||| be_value(data.subrange(16, 24)) == 0
}

proof fn lemma_pow256_mono(a: nat, b: nat)
    requires
        a <= b,
    ensures
        pow256(a) <= pow256(b),
    decreases b,
{
    if a < b {
        lemma_pow256_mono(a, (b - 1) as nat);
    }
}

proof fn lemma_pow256_8()
    ensures
        pow256(8) == 0x1_0000_0000_0000_0000,
{
    reveal_with_fuel(pow256, 9);
}

/// Reads `len` bytes from `start` as an unsigned big-endian number.
fn read_be(data: &[u8], start: usize, len: usize) -> (v: u64)
    requires
        len <= 8,
        start + len <= data@.len(),
    ensures
        v == be_value(data@.subrange(start as int, start + len)),
{
    let mut v: u64 = 0;
    let total = data.len();
    for k in 0..len
        invariant
            len <= 8,
            start + len <= data@.len(),
            total == data@.len(),
            v == be_value(data@.subrange(start as int, start + k)),
            v < pow256(k as nat),
    {
        proof {
            lemma_pow256_mono((k + 1) as nat, 8);
            lemma_pow256_8();
            assert(data@.subrange(start as int, start + k + 1).drop_last() =~= data@.subrange(
                start as int,
                start + k,
            ));
        }
        let at = start + k;
        v = v * 256 + data[at] as u64;
    }
    v
}

/// Whether `data` starts with the container's magic.
pub fn has_video_magic(data: &[u8]) -> (b: bool)
    ensures
        b == starts_with_magic(data@),
{
    if data.len() < 8 {
        return false;
    }
    let magic: [u8; 8] = [0x50, 0x4b, 0x56, 0x49, 0x44, 0x45, 0x4f, 0x31];
    let ghost m = video_magic();
    assert(magic@ == m);
    for k in 0..8usize
        invariant
            data@.len() >= 8,
            m == video_magic(),
            magic@ == m,
            forall|j: int| 0 <= j < k ==> data@[j] == m[j],
    {
        if data[k] != magic[k] {
            assert(magic[k as int] == m[k as int]);
            assert(data@.take(8)[k as int] != m[k as int]);
            return false;
        }
    }
    assert(data@.take(8) =~= m);
    true
}

/// The header starts with the bytes `P K V I D E O 1`; its fields are the
/// big-endian numbers in bytes 8 to 12 (block size), 12 to 16 (block count)
/// and 16 to 24 (plaintext size).
pub proof fn lemma_header_layout(d: Seq<u8>)
    requires
        d.len() == 32,
    ensures
        starts_with_magic(d) <==> (d[0] == 0x50 && d[1] == 0x4b && d[2] == 0x56 && d[3] == 0x49 && d[4]
            == 0x44 && d[5] == 0x45 && d[6] == 0x4f && d[7] == 0x31),
        be_value(d.subrange(8, 12)) == d[8] * 0x100_0000 + d[9] * 0x1_0000 + d[10] * 0x100 + d[11],
        be_value(d.subrange(12, 16)) == d[12] * 0x100_0000 + d[13] * 0x1_0000 + d[14] * 0x100
            + d[15],
        be_value(d.subrange(16, 24)) == d[16] * 0x100_0000_0000_0000 + d[17] * 0x1_0000_0000_0000
            + d[18] * 0x100_0000_0000 + d[19] * 0x1_0000_0000 + d[20] * 0x100_0000 + d[21]
            * 0x1_0000 + d[22] * 0x100 + d[23],
{
    if d[0] == 0x50 && d[1] == 0x4b && d[2] == 0x56 && d[3] == 0x49 && d[4] == 0x44 && d[5] == 0x45
        && d[6] == 0x4f && d[7] == 0x31 {
        assert(d.take(8) =~= video_magic());
    } else {
        assert(d.take(8) != video_magic()) by {
            let t = d.take(8);
            let m = video_magic();
            if d[0] != 0x50 {
                assert(t[0] != m[0]);
            } else if d[1] != 0x4b {
                assert(t[1] != m[1]);
            } else if d[2] != 0x56 {
                assert(t[2] != m[2]);
            } else if d[3] != 0x49 {
                assert(t[3] != m[3]);
            } else if d[4] != 0x44 {
                assert(t[4] != m[4]);
            } else if d[5] != 0x45 {
                assert(t[5] != m[5]);
            } else if d[6] != 0x4f {
                assert(t[6] != m[6]);
            } else {
                assert(t[7] != m[7]);
            }
        }
    }
    lemma_be_unfold(d, 8, 12);
    lemma_be_unfold(d, 12, 16);
    lemma_be_unfold(d, 16, 24);
}

/// Unfolds the big-endian value of `d[a..b]` one byte at a time.
proof fn lemma_be_unfold(d: Seq<u8>, a: int, b: int)
    requires
        0 <= a <= b <= d.len(),
        b - a <= 8,
    ensures
        b - a == 4 ==> be_value(d.subrange(a, b)) == d[a] * 0x100_0000 + d[a + 1] * 0x1_0000 + d[a
            + 2] * 0x100 + d[a + 3],
        b - a == 8 ==> be_value(d.subrange(a, b)) == d[a] * 0x100_0000_0000_0000 + d[a + 1]
            * 0x1_0000_0000_0000 + d[a + 2] * 0x100_0000_0000 + d[a + 3] * 0x1_0000_0000 + d[a + 4]
            * 0x100_0000 + d[a + 5] * 0x1_0000 + d[a + 6] * 0x100 + d[a + 7],
{
    if b - a >= 1 {
        lemma_be_step(d, a, a);
    }
    if b - a >= 2 {
        lemma_be_step(d, a, a + 1);
    }
    if b - a >= 3 {
        lemma_be_step(d, a, a + 2);
    }
    if b - a >= 4 {
        lemma_be_step(d, a, a + 3);
    }
    if b - a >= 5 {
        lemma_be_step(d, a, a + 4);
    }
    if b - a >= 6 {
        lemma_be_step(d, a, a + 5);
    }
    if b - a >= 7 {
        lemma_be_step(d, a, a + 6);
    }
    if b - a >= 8 {
        lemma_be_step(d, a, a + 7);
    }
    assert(be_value(d.subrange(a, a)) == 0);
}

proof fn lemma_be_step(d: Seq<u8>, a: int, j: int)
    requires
        0 <= a <= j < d.len(),
    ensures
        be_value(d.subrange(a, j + 1)) == be_value(d.subrange(a, j)) * 256 + d[j],
{
    assert(d.subrange(a, j + 1).drop_last() =~= d.subrange(a, j));
}

/// Parses the container's 32-byte header.
pub fn parse_video_header(data: &[u8; 32]) -> (res: Result<VideoHeader, AppError>)
    ensures
        match res {
            Ok(h) => starts_with_magic(data@) && !has_zero_field(data@) && header_fields(data@, h),
            Err(e) => (!starts_with_magic(data@) && e == AppError::NotVideo) || (starts_with_magic(
                data@,
            ) && has_zero_field(data@) && e == AppError::BadVideoHeader),
        },
{
    let bytes = data.as_slice();
    if !has_video_magic(bytes) {
        return Err(AppError::NotVideo);
    }
    let block_size = read_be(bytes, 8, 4);
    let blocks = read_be(bytes, 12, 4);
    let plain_size = read_be(bytes, 16, 8);
    proof {
        lemma_pow256_8();
        reveal_with_fuel(pow256, 5);
        lemma_be_bound(data@.subrange(8, 12));
        lemma_be_bound(data@.subrange(12, 16));
    }
    if block_size == 0 || blocks == 0 || plain_size == 0 {
        return Err(AppError::BadVideoHeader);
    }
    Ok(VideoHeader { block_size: block_size as usize, blocks: blocks as usize, plain_size })
}

/// A big-endian number of `n` bytes is below `256^n`.
pub proof fn lemma_be_bound(s: Seq<u8>)
    ensures
        be_value(s) < pow256(s.len()),
    decreases s.len(),
{
    if s.len() > 0 {
        lemma_be_bound(s.drop_last());
    }
}

/// The plaintext length of block `idx`: the block size, except for the last
/// block, which holds what remains of the plaintext; none if nothing remains,
/// which ends the video.
pub open spec fn block_plain_len(h: VideoHeader, idx: nat) -> Option<nat> {
    if idx + 1 == h.blocks {
        let rem = h.plain_size - idx * h.block_size;
        if rem == 0 {
            None
        } else {
            Some(rem as nat)
        }
    } else {
        Some(h.block_size as nat)
    }
}

/// Whether the plan of block `idx` can be computed in machine integers: the
/// block exists, the last block does not start past the plaintext's end, and
/// the block with its overhead fits in a `usize`.
pub open spec fn block_plan_defined(h: VideoHeader, idx: nat) -> bool {
    &&& idx < h.blocks
    &&& idx + 1 == h.blocks ==> {
        &&& idx * h.block_size <= h.plain_size
        &&& h.plain_size <= usize::MAX
        &&& h.plain_size - idx * h.block_size + VIDEO_BLOCK_OVERHEAD <= usize::MAX
    }
    &&& idx + 1 < h.blocks ==> h.block_size + VIDEO_BLOCK_OVERHEAD <= usize::MAX
}

/// The plan of a block can be computed whenever it exists, the last block
/// does not start past the plaintext's end, the plaintext size fits in a
/// `usize`, and the block's length plus its 28 bytes of overhead fits in a
/// `usize`.
pub proof fn lemma_block_plan_computable(h: VideoHeader, idx: nat)
    requires
        idx < h.blocks,
        idx + 1 == h.blocks ==> idx * h.block_size <= h.plain_size && h.plain_size <= usize::MAX
            && h.plain_size - idx * h.block_size + 28 <= usize::MAX,
        idx + 1 < h.blocks ==> h.block_size + 28 <= usize::MAX,
    ensures
        block_plan_defined(h, idx),
{
}

/// On a 64-bit target, every block of a video whose last block does not
/// start past the plaintext's end (and whose plaintext size leaves room for
/// the overhead) can be planned, for any 32-bit block size.
pub proof fn lemma_video_plannable_on_64_bit(h: VideoHeader, idx: nat)
    requires
        usize::MAX == u64::MAX,
        idx < h.blocks,
        h.block_size <= u32::MAX,
        (h.blocks - 1) * h.block_size <= h.plain_size,
        h.plain_size + 28 <= u64::MAX,
    ensures
        block_plan_defined(h, idx),
{
    let bs = h.block_size as int;
    let last = h.blocks - 1;
    assert(idx * bs <= last * bs) by (nonlinear_arith)
        requires
            idx <= last,
            bs >= 0,
    ;
    assert(idx * bs >= 0) by (nonlinear_arith)
        requires
            idx >= 0,
            bs >= 0,
    ;
    lemma_block_plan_computable(h, idx);
}

/// Whether the plan of block `idx` can be computed (see `block_plan_defined`).
pub fn video_block_plannable(h: &VideoHeader, idx: usize) -> (b: bool)
    ensures
        b == block_plan_defined(*h, idx as nat),
{
    if idx >= h.blocks {
        return false;
    }
    if idx + 1 == h.blocks {
        let a = idx as u128;
        let b = h.block_size as u128;
        assert(a * b <= 0xffff_ffff_ffff_ffff * 0xffff_ffff_ffff_ffffu128) by (nonlinear_arith)
            requires
                a <= 0xffff_ffff_ffff_ffff,
                b <= 0xffff_ffff_ffff_ffff,
        ;
        let start: u128 = a * b;
        if start > h.plain_size as u128 {
            return false;
        }
        if h.plain_size as u128 > usize::MAX as u128 {
            return false;
        }
        let rem = h.plain_size as u128 - start;
        rem + 28 <= usize::MAX as u128
    } else {
        h.block_size as u128 + 28 <= usize::MAX as u128
    }
}

/// How many bytes block `idx` occupies in the file (its plaintext length
/// plus the overhead), or none where the video ends before it.
pub fn video_block_read_len(h: &VideoHeader, idx: usize) -> (res: Option<usize>)
    requires
        block_plan_defined(*h, idx as nat),
    ensures
        match block_plain_len(*h, idx as nat) {
            Some(n) => res == Some((n + VIDEO_BLOCK_OVERHEAD) as usize),
            None => res is None,
        },
{
    let mut plain_size = h.block_size;
    if idx == h.blocks - 1 {
        proof {
            assert(idx * h.block_size <= h.plain_size);
        }
        let remaining = h.plain_size as usize - idx * h.block_size;
        if remaining == 0 {
            return None;
        }
        plain_size = remaining;
    }
    Some(plain_size + VIDEO_BLOCK_OVERHEAD)
}

/// The plaintext bytes that the first `n` blocks hold, as planned.
pub open spec fn planned_total(h: VideoHeader, n: nat) -> nat
    decreases n,
{
    if n == 0 {
        0
    } else {
        planned_total(h, (n - 1) as nat) + match block_plain_len(h, (n - 1) as nat) {
            Some(l) => l,
            None => 0,
        }
    }
}

/// The first `n` blocks, none of them the last, hold `n` full blocks.
pub proof fn lemma_planned_prefix(h: VideoHeader, n: nat)
    requires
        n < h.blocks,
    ensures
        planned_total(h, n) == n * h.block_size,
    decreases n,
{
    if n > 0 {
        let m = (n - 1) as nat;
        lemma_planned_prefix(h, m);
        assert(block_plain_len(h, m) == Some(h.block_size as nat));
        assert(planned_total(h, n) == planned_total(h, m) + h.block_size);
        let bs = h.block_size as int;
        assert(m * bs + bs == n * bs) by (nonlinear_arith)
            requires
                m + 1 == n,
        ;
        assert(planned_total(h, n) == n * bs);
    } else {
        assert(n * h.block_size == 0) by (nonlinear_arith)
            requires
                n == 0,
        ;
    }
}

/// The blocks of a video, as planned, hold exactly its plaintext: their
/// plaintext lengths add up to the size that the header gives, provided the
/// last block does not start past the plaintext's end.
pub proof fn lemma_blocks_cover_plaintext(h: VideoHeader)
    requires
        h.blocks > 0,
        (h.blocks - 1) * h.block_size <= h.plain_size,
    ensures
        planned_total(h, h.blocks as nat) == h.plain_size,
{
    lemma_planned_prefix(h, (h.blocks - 1) as nat);
}

} // verus!
