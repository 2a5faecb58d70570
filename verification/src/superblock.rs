//! The global filesystem descriptor: a ~1 KiB record at byte offset 1024
//! of the image. Only the fields this crate interprets are retained.

use vstd::prelude::*;

use crate::codec::{le16, le32, read_u16, read_u32, spec_u64, compute_u64};
use crate::constants::{
    FEATURE_INCOMPAT_64BIT, FEATURE_INCOMPAT_EXTENTS, FEATURE_INCOMPAT_FILETYPE,
    SUPER_BLOCK_MAGIC,
};
use crate::errors::ExtfsError;
use vstd::arithmetic::power2::{
    pow2, lemma2_to64, lemma2_to64_rest, lemma_pow2_adds, lemma_pow2_strictly_increases,
};
use vstd::bits::lemma_u64_shl_is_mul;

verus! {

/// The interpreted fields of the on-disk superblock.
#[derive(Debug, Clone, Copy)]
pub struct SuperBlock {
    pub inodes_count: u32,
    pub blocks_count_lo: u32,
    pub blocks_count_hi: u32,
    pub log_block_size: u32,
    pub blocks_per_group: u32,
    pub inodes_per_group: u32,
    pub inode_size: u16,
    pub magic: u16,
    pub feature_incompat: u32,
}

/// The superblock fields decoded little-endian at their on-disk offsets,
/// relative to byte 1024 of the image.
pub open spec fn sb_of(img: Seq<u8>) -> SuperBlock {
    SuperBlock {
        inodes_count: le32(img, 1024) as u32,
        blocks_count_lo: le32(img, 1028) as u32,
        blocks_count_hi: le32(img, 1360) as u32,
        log_block_size: le32(img, 1048) as u32,
        blocks_per_group: le32(img, 1056) as u32,
        inodes_per_group: le32(img, 1064) as u32,
        inode_size: le16(img, 1112) as u16,
        magic: le16(img, 1080) as u16,
        feature_incompat: le32(img, 1120) as u32,
    }
}

/// What `SuperBlock::from_reader` returns on any image: the decoded record,
/// or the first failing validation in order. Geometry that no computation
/// can survive (a zero group size, a block size past what a u64 holds, a
/// group count over `u32::MAX`) counts as a malformed record.
pub open spec fn sb_parse(img: Seq<u8>) -> Result<SuperBlock, ExtfsError> {
    if img.len() < 2048 {
        Err(ExtfsError::Decode)
    } else {
        let sb = sb_of(img);
        if sb.magic != SUPER_BLOCK_MAGIC {
            Err(ExtfsError::InvalidSuperBlockMagic(sb.magic))
        } else if sb.blocks_per_group == 0 || sb.inodes_per_group == 0 {
            Err(ExtfsError::Decode)
        } else {
            let from_blocks = (spec_u64(sb.blocks_count_lo, sb.blocks_count_hi)
                + sb.blocks_per_group - 1) / (sb.blocks_per_group as int);
            let from_inodes = (sb.inodes_count + sb.inodes_per_group - 1) / (
            sb.inodes_per_group as int);
            if from_blocks != from_inodes {
                Err(
                    (ExtfsError::BlockGroupCountMismatch {
                        blocks: from_blocks as u64,
                        inodes: from_inodes as u64,
                    }),
                )
            } else if sb.log_block_size > 53 || sb.blocks_count_lo / (sb.blocks_per_group as u32)
                + 1 > u32::MAX {
                Err(ExtfsError::Decode)
            } else {
                Ok(sb)
            }
        }
    }
}

impl SuperBlock {
    /// Geometry sound enough for position arithmetic: what a successful
    /// parse establishes.
    pub open spec fn wf(self) -> bool {
        &&& self.magic == SUPER_BLOCK_MAGIC
        &&& self.log_block_size <= 53
        &&& self.blocks_per_group >= 1
        &&& self.inodes_per_group >= 1
        &&& self.blocks_count_lo / (self.blocks_per_group as u32) + 1 <= u32::MAX
    }

    /// Size of a single block in bytes: `1024 << log_block_size`.
    pub open spec fn spec_block_size(self) -> int {
        (1024 * pow2(self.log_block_size as nat)) as int
    }

    /// Check whether it supports 64bit.
    pub fn feature_incompat_64bit(&self) -> (r: bool)
        ensures
            r == (self.feature_incompat & FEATURE_INCOMPAT_64BIT != 0),
    {
        (self.feature_incompat & FEATURE_INCOMPAT_64BIT) != 0
    }

    /// Check whether dir entry supports filetype.
    pub fn feature_incompat_filetype(&self) -> (r: bool)
        ensures
            r == (self.feature_incompat & FEATURE_INCOMPAT_FILETYPE != 0),
    {
        (self.feature_incompat & FEATURE_INCOMPAT_FILETYPE) != 0
    }

    /// Check whether the filesystem uses extents.
    pub fn feature_incompat_extents(&self) -> (r: bool)
        ensures
            r == (self.feature_incompat & FEATURE_INCOMPAT_EXTENTS != 0),
    {
        (self.feature_incompat & FEATURE_INCOMPAT_EXTENTS) != 0
    }

    /// Get total block count.
    pub fn get_block_count(&self) -> (r: u64)
        ensures
            r == spec_u64(self.blocks_count_lo, self.blocks_count_hi),
    {
        compute_u64(self.blocks_count_lo, self.blocks_count_hi)
    }

    /// Get size of a single block.
    pub fn get_block_size(&self) -> (r: u64)
        requires
            self.log_block_size <= 53,
        ensures
            r == self.spec_block_size(),
            1024 <= r <= 0x8000_0000_0000_0000,
    {
        proof {
            lemma2_to64();
            lemma2_to64_rest();
            if self.log_block_size < 53 {
                lemma_pow2_strictly_increases(self.log_block_size as nat, 53);
            }
            lemma_u64_shl_is_mul(1024, self.log_block_size as u64);
            if self.log_block_size > 0 {
                lemma_pow2_strictly_increases(0, self.log_block_size as nat);
            }
        }
        1024u64 << (self.log_block_size as u64)
    }

    /// Get block group count, with the on-disk `+ 1` sizing rule.
    pub fn get_block_group_count(&self) -> (r: u32)
        requires
            self.wf(),
        ensures
            r == self.blocks_count_lo / (self.blocks_per_group as u32) + 1,
    {
        self.blocks_count_lo / self.blocks_per_group + 1
    }

    /// Decode and validate the superblock of the image: magic must be
    /// `0xEF53` and the block-derived and inode-derived group counts must
    /// agree.
    pub fn from_reader(img: &Vec<u8>) -> (r: Result<SuperBlock, ExtfsError>)
        ensures
            r == sb_parse(img@),
            r matches Ok(sb) ==> sb == sb_of(img@) && sb.wf(),
    {
        if img.len() < 2048 {
            return Err(ExtfsError::Decode);
        }
        let sb = SuperBlock {
            inodes_count: read_u32(img, 1024),
            blocks_count_lo: read_u32(img, 1028),
            blocks_count_hi: read_u32(img, 1360),
            log_block_size: read_u32(img, 1048),
            blocks_per_group: read_u32(img, 1056),
            inodes_per_group: read_u32(img, 1064),
            inode_size: read_u16(img, 1112),
            magic: read_u16(img, 1080),
            feature_incompat: read_u32(img, 1120),
        };

        if sb.magic != SUPER_BLOCK_MAGIC {
            return Err(ExtfsError::InvalidSuperBlockMagic(sb.magic));
        }

        if sb.blocks_per_group == 0 || sb.inodes_per_group == 0 {
            return Err(ExtfsError::Decode);
        }

        let block_count = sb.get_block_count();
        let bg_count_from_block: u128 = (block_count as u128 + sb.blocks_per_group as u128 - 1)
            / (sb.blocks_per_group as u128);
        let bg_count_from_inode: u128 = ((sb.inodes_count as u64 + sb.inodes_per_group as u64 - 1)
            / (sb.inodes_per_group as u64)) as u128;
        if bg_count_from_block != bg_count_from_inode {
            proof {
                vstd::arithmetic::div_mod::lemma_div_basics_5(
                    block_count as int + sb.blocks_per_group as int - 1,
                    sb.blocks_per_group as int,
                );
            }
            return Err(ExtfsError::BlockGroupCountMismatch {
                blocks: bg_count_from_block as u64,
                inodes: bg_count_from_inode as u64,
            });
        }

        if sb.log_block_size > 53 || sb.blocks_count_lo / sb.blocks_per_group == u32::MAX {
            return Err(ExtfsError::Decode);
        }

        Ok(sb)
    }
}

/// Law: the block size equals `1024 << log_block_size`, and is a power of
/// two at least 1024.
pub proof fn lemma_block_size_power_of_two(sb: SuperBlock)
    ensures
        sb.spec_block_size() == 1024 * pow2(sb.log_block_size as nat),
        sb.spec_block_size() == pow2((sb.log_block_size + 10) as nat),
        sb.spec_block_size() >= 1024,
{
    lemma2_to64();
    lemma_pow2_adds(10, sb.log_block_size as nat);
    if sb.log_block_size > 0 {
        lemma_pow2_strictly_increases(0, sb.log_block_size as nat);
    }
}

} // verus!
