//! Decrypting a video block by block, in the order the container plans,
//! with the plaintext so far accounted for.

use vstd::prelude::*;
use crate::crypto::{aes256gcm_opening, check_cipher_key, decrypt_video_block};
use crate::error::AppError;
use crate::video::{
    block_plain_len, block_plan_defined, lemma_blocks_cover_plaintext, planned_total,
    video_block_plannable, video_block_read_len, VideoHeader, VIDEO_BLOCK_OVERHEAD,
};

verus! {

/// The plaintext of a sequence of blocks (each a 12-byte nonce and its
/// AES-256-GCM ciphertext), concatenated in order; none if any block fails
/// to authenticate.
pub open spec fn opened_concat(key: Seq<u8>, blocks: Seq<Seq<u8>>) -> Option<Seq<u8>>
    decreases blocks.len(),
{
    if blocks.len() == 0 {
        Some(Seq::empty())
    } else {
        let b = blocks.last();
        match (opened_concat(key, blocks.drop_last()), aes256gcm_opening(key, b.take(12), b.skip(12))) {
            (Some(front), Some(p)) => Some(front + p),
            _ => None,
        }
    }
}

/// The concatenation of byte sequences, in order.
pub open spec fn concat_all(parts: Seq<Seq<u8>>) -> Seq<u8>
    decreases parts.len(),
{
    if parts.len() == 0 {
        Seq::empty()
    } else {
        concat_all(parts.drop_last()) + parts.last()
    }
}

/// Where each block opens to a plaintext, the blocks together open to the
/// concatenation of those plaintexts, in block order.
pub proof fn lemma_output_is_concatenation(
    key: Seq<u8>,
    blocks: Seq<Seq<u8>>,
    plains: Seq<Seq<u8>>,
)
    requires
        blocks.len() == plains.len(),
        forall|i: int|
            0 <= i < blocks.len() ==> aes256gcm_opening(
                key,
                (#[trigger] blocks[i]).take(12),
                blocks[i].skip(12),
            ) == Some(plains[i]),
    ensures
        opened_concat(key, blocks) == Some(concat_all(plains)),
    decreases blocks.len(),
{
    if blocks.len() > 0 {
        let n = blocks.len() - 1;
        assert forall|i: int| 0 <= i < blocks.drop_last().len() implies aes256gcm_opening(
            key,
            (#[trigger] blocks.drop_last()[i]).take(12),
            blocks.drop_last()[i].skip(12),
        ) == Some(plains.drop_last()[i]) by {
            assert(blocks.drop_last()[i] == blocks[i]);
        }
        lemma_output_is_concatenation(key, blocks.drop_last(), plains.drop_last());
        assert(aes256gcm_opening(key, blocks[n].take(12), blocks[n].skip(12)) == Some(plains[n]));
    }
}

/// How far decryption has come.
struct Progress {
    next: usize,
    fed: Ghost<Seq<Seq<u8>>>,
    produced: Ghost<Seq<u8>>,
}

/// Decrypts a video's blocks one at a time, in planned order, keeping
/// account of the blocks fed and the plaintext produced.
pub struct VideoDecoder {
    header: VideoHeader,
    key: Vec<u8>,
    progress: Progress,
}

impl VideoDecoder {
    #[verifier::type_invariant]
    spec fn accounted(self) -> bool {
        let h = self.header;
        let p = self.progress;
        &&& self.key@.len() == 32
        &&& p.next <= h.blocks
        &&& p.fed@.len() == p.next
        &&& forall|i: int|
            0 <= i < p.next ==> block_plain_len(h, i as nat) is Some && (#[trigger] p.fed@[i]).len()
                == block_plain_len(h, i as nat)->0 + VIDEO_BLOCK_OVERHEAD
        &&& opened_concat(self.key@, p.fed@) == Some(p.produced@)
        &&& p.produced@.len() == planned_total(h, p.next as nat)
        &&& p.next == h.blocks ==> (h.blocks - 1) * h.block_size <= h.plain_size
    }

    /// The header of the video.
    pub closed spec fn header_of(self) -> VideoHeader {
        self.header
    }

    /// The key it decrypts with.
    pub closed spec fn key_of(self) -> Seq<u8> {
        self.key@
    }

    /// The index of the next block.
    pub closed spec fn next_index(self) -> nat {
        self.progress.next as nat
    }

    /// The blocks decrypted so far, in order.
    pub closed spec fn fed_blocks(self) -> Seq<Seq<u8>> {
        self.progress.fed@
    }

    /// The plaintext produced so far.
    pub closed spec fn produced(self) -> Seq<u8> {
        self.progress.produced@
    }

    /// Whether the next block's plan can be computed (or there is none).
    pub open spec fn next_plannable(self) -> bool {
        self.next_index() >= self.header_of().blocks || block_plan_defined(
            self.header_of(),
            self.next_index(),
        )
    }

    /// Starts decrypting a video with the given header; the error where the
    /// cipher refuses the key.
    pub fn start(header: VideoHeader, key: &[u8]) -> (res: Result<VideoDecoder, AppError>)
        ensures
            match res {
                Ok(d) => {
                    &&& key@.len() == 32
                    &&& d.header_of() == header
                    &&& d.key_of() == key@
                    &&& d.next_index() == 0
                    &&& d.fed_blocks() == Seq::<Seq<u8>>::empty()
                    &&& d.produced() == Seq::<u8>::empty()
                },
                Err(e) => key@.len() != 32 && e == AppError::InvalidKeyLength,
            },
    {
        check_cipher_key(key)?;
        Ok(
            VideoDecoder {
                header,
                key: vstd::slice::slice_to_vec(key),
                progress: Progress { next: 0, fed: Ghost(Seq::empty()), produced: Ghost(Seq::empty()) },
            },
        )
    }

    /// Whether the next block's plan can be computed (or there is none).
    pub fn next_block_plannable(&self) -> (b: bool)
        ensures
            b == self.next_plannable(),
    {
        self.progress.next >= self.header.blocks || video_block_plannable(
            &self.header,
            self.progress.next,
        )
    }

    /// How many bytes the next block occupies in the file, or none where the
    /// video is complete. When it is, the plaintext produced has exactly the
    /// size that the header gives (for a header with at least one block).
    pub fn next_block_len(&self) -> (res: Option<usize>)
        requires
            self.next_plannable(),
        ensures
            self.next_index() >= self.header_of().blocks ==> res is None,
            self.next_index() < self.header_of().blocks ==> match block_plain_len(
                self.header_of(),
                self.next_index(),
            ) {
                Some(n) => res == Some((n + VIDEO_BLOCK_OVERHEAD) as usize),
                None => res is None,
            },
            res is None && self.header_of().blocks > 0 ==> self.produced().len()
                == self.header_of().plain_size,
    {
        proof {
            use_type_invariant(self);
        }
        let h = &self.header;
        let next = self.progress.next;
        if next >= h.blocks {
            proof {
                if h.blocks > 0 {
                    lemma_blocks_cover_plaintext(*h);
                }
            }
            return None;
        }
        let res = video_block_read_len(h, next);
        proof {
            if res is None {
                crate::video::lemma_planned_prefix(*h, next as nat);
            }
        }
        res
    }

    /// Decrypts the next block, which must have the planned length, and adds
    /// its plaintext to what was produced; on failure nothing changes.
    pub fn open_next(&mut self, enc_block: &[u8]) -> (res: Result<Vec<u8>, AppError>)
        requires
            old(self).next_index() < old(self).header_of().blocks,
            block_plan_defined(old(self).header_of(), old(self).next_index()),
            block_plain_len(old(self).header_of(), old(self).next_index()) matches Some(n)
                && enc_block@.len() == n + VIDEO_BLOCK_OVERHEAD,
        ensures
            final(self).header_of() == old(self).header_of(),
            final(self).key_of() == old(self).key_of(),
            match res {
                Ok(p) => {
                    &&& aes256gcm_opening(
                        old(self).key_of(),
                        enc_block@.take(12),
                        enc_block@.skip(12),
                    ) == Some(p@)
                    &&& final(self).next_index() == old(self).next_index() + 1
                    &&& final(self).fed_blocks() == old(self).fed_blocks().push(enc_block@)
                    &&& final(self).produced() == old(self).produced() + p@
                    &&& opened_concat(final(self).key_of(), final(self).fed_blocks()) == Some(
                        final(self).produced(),
                    )
                },
                Err(e) => {
                    &&& aes256gcm_opening(
                        old(self).key_of(),
                        enc_block@.take(12),
                        enc_block@.skip(12),
                    ) is None
                    &&& e == AppError::VideoBlockFailed(old(self).next_index() as usize)
                    &&& final(self).next_index() == old(self).next_index()
                    &&& final(self).fed_blocks() == old(self).fed_blocks()
                    &&& final(self).produced() == old(self).produced()
                },
            },
    {
        proof {
            use_type_invariant(&*self);
        }
        let next = self.progress.next;
        let plain = decrypt_video_block(self.key.as_slice(), enc_block, next)?;
        let ghost fed = self.progress.fed@.push(enc_block@);
        let ghost produced = self.progress.produced@ + plain@;
        proof {
            assert(fed.drop_last() =~= self.progress.fed@);
            assert forall|i: int| 0 <= i < next + 1 implies block_plain_len(
                self.header,
                i as nat,
            ) is Some && (#[trigger] fed[i]).len() == block_plain_len(self.header, i as nat)->0
                + VIDEO_BLOCK_OVERHEAD by {
                if i < next {
                    assert(fed[i] == self.progress.fed@[i]);
                }
            }
        }
        self.progress = Progress { next: next + 1, fed: Ghost(fed), produced: Ghost(produced) };
        Ok(plain)
    }
}

/// On a 64-bit target, a decoder of a video whose last block does not start
/// past the plaintext's end (and whose plaintext size leaves room for the
/// overhead) can always plan its next block, for any 32-bit block size.
pub proof fn lemma_decoder_plannable_on_64_bit(d: VideoDecoder)
    requires
        usize::MAX == u64::MAX,
        d.header_of().block_size <= u32::MAX,
        (d.header_of().blocks - 1) * d.header_of().block_size <= d.header_of().plain_size,
        d.header_of().plain_size + 28 <= u64::MAX,
    ensures
        d.next_plannable(),
{
    if d.next_index() < d.header_of().blocks {
        crate::video::lemma_video_plannable_on_64_bit(d.header_of(), d.next_index());
    }
}

} // verus!
