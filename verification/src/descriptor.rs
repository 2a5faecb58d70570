//! Block group descriptors: 32-byte base records, optionally extended to
//! 64 bytes with high halves when the image has the 64-bit feature.

use vstd::prelude::*;

use crate::codec::{le16, le32, read_u16, read_u32, spec_u64, compute_u64};
use crate::errors::ExtfsError;

verus! {

/// The 32-byte base record of a block group descriptor.
#[derive(Debug, Clone, Copy)]
pub struct BlockGroupDescriptor32 {
    pub block_bitmap_lo: u32,
    pub inode_bitmap_lo: u32,
    pub inode_table_lo: u32,
    pub free_blocks_count_lo: u16,
    pub free_inodes_count_lo: u16,
    pub used_dirs_count_lo: u16,
    pub flags: u16,
    pub exclude_bitmap_lo: u32,
    pub block_bitmap_csum_lo: u16,
    pub inode_bitmap_csum_lo: u16,
    pub itable_unused_lo: u16,
    pub checksum: u16,
}

/// A block group descriptor: the base record plus the 64-bit extension,
/// whose fields stay zero on non-64-bit images.
#[derive(Debug, Clone, Copy)]
pub struct BlockGroupDescriptor {
    pub descriptor32: BlockGroupDescriptor32,
    pub block_bitmap_hi: u32,
    pub inode_bitmap_hi: u32,
    pub inode_table_hi: u32,
    pub free_blocks_count_hi: u16,
    pub free_inodes_count_hi: u16,
    pub used_dirs_count_hi: u16,
    pub itable_unused_hi: u16,
    pub exclude_bitmap_hi: u32,
    pub block_bitmap_csum_hi: u16,
    pub inode_bitmap_csum_hi: u16,
    pub reserved: u32,
}

/// The base record decoded at byte `off` of the image.
pub open spec fn bgd32_of(img: Seq<u8>, off: int) -> BlockGroupDescriptor32 {
    BlockGroupDescriptor32 {
        block_bitmap_lo: le32(img, off) as u32,
        inode_bitmap_lo: le32(img, off + 4) as u32,
        inode_table_lo: le32(img, off + 8) as u32,
        free_blocks_count_lo: le16(img, off + 12) as u16,
        free_inodes_count_lo: le16(img, off + 14) as u16,
        used_dirs_count_lo: le16(img, off + 16) as u16,
        flags: le16(img, off + 18) as u16,
        exclude_bitmap_lo: le32(img, off + 20) as u32,
        block_bitmap_csum_lo: le16(img, off + 24) as u16,
        inode_bitmap_csum_lo: le16(img, off + 26) as u16,
        itable_unused_lo: le16(img, off + 28) as u16,
        checksum: le16(img, off + 30) as u16,
    }
}

/// The full descriptor decoded at byte `off`: high halves come from the
/// 32-byte extension when `is_64bit`, and are zero otherwise.
pub open spec fn bgd_of(img: Seq<u8>, off: int, is_64bit: bool) -> BlockGroupDescriptor {
    if is_64bit {
        BlockGroupDescriptor {
            descriptor32: bgd32_of(img, off),
            block_bitmap_hi: le32(img, off + 32) as u32,
            inode_bitmap_hi: le32(img, off + 36) as u32,
            inode_table_hi: le32(img, off + 40) as u32,
            free_blocks_count_hi: le16(img, off + 44) as u16,
            free_inodes_count_hi: le16(img, off + 46) as u16,
            used_dirs_count_hi: le16(img, off + 48) as u16,
            itable_unused_hi: le16(img, off + 50) as u16,
            exclude_bitmap_hi: le32(img, off + 52) as u32,
            block_bitmap_csum_hi: le16(img, off + 56) as u16,
            inode_bitmap_csum_hi: le16(img, off + 58) as u16,
            reserved: le32(img, off + 60) as u32,
        }
    } else {
        BlockGroupDescriptor {
            descriptor32: bgd32_of(img, off),
            block_bitmap_hi: 0,
            inode_bitmap_hi: 0,
            inode_table_hi: 0,
            free_blocks_count_hi: 0,
            free_inodes_count_hi: 0,
            used_dirs_count_hi: 0,
            itable_unused_hi: 0,
            exclude_bitmap_hi: 0,
            block_bitmap_csum_hi: 0,
            inode_bitmap_csum_hi: 0,
            reserved: 0,
        }
    }
}

/// What `BlockGroupDescriptor::from_reader` returns at byte `off`: the
/// decoded record, or a decode error when the record runs past the image.
pub open spec fn bgd_parse(img: Seq<u8>, off: int, is_64bit: bool) -> Result<
    BlockGroupDescriptor,
    ExtfsError,
> {
    let size: int = if is_64bit {
        64
    } else {
        32
    };
    if off + size > img.len() {
        Err(ExtfsError::Decode)
    } else {
        Ok(bgd_of(img, off, is_64bit))
    }
}

impl BlockGroupDescriptor {
    /// Get location of block bitmap.
    pub fn get_block_bitmap_loc(&self) -> (r: u64)
        ensures
            r == spec_u64(self.descriptor32.block_bitmap_lo, self.block_bitmap_hi),
    {
        compute_u64(self.descriptor32.block_bitmap_lo, self.block_bitmap_hi)
    }

    /// Get location of inode bitmap.
    pub fn get_inode_bitmap_loc(&self) -> (r: u64)
        ensures
            r == spec_u64(self.descriptor32.inode_bitmap_lo, self.inode_bitmap_hi),
    {
        compute_u64(self.descriptor32.inode_bitmap_lo, self.inode_bitmap_hi)
    }

    /// Get location of inode table.
    pub fn get_inode_table_loc(&self) -> (r: u64)
        ensures
            r == spec_u64(self.descriptor32.inode_table_lo, self.inode_table_hi),
    {
        compute_u64(self.descriptor32.inode_table_lo, self.inode_table_hi)
    }

    /// Decode one descriptor record at byte `offset` of the image, reading
    /// 64 bytes when the image is 64-bit and 32 bytes otherwise.
    pub fn from_reader(img: &Vec<u8>, offset: usize, is_64bit: bool) -> (r: Result<
        BlockGroupDescriptor,
        ExtfsError,
    >)
        ensures
            r == bgd_parse(img@, offset as int, is_64bit),
    {
        let n = img.len();
        let size: usize = if is_64bit {
            64
        } else {
            32
        };
        if offset > n || n - offset < size {
            return Err(ExtfsError::Decode);
        }
        let descriptor32 = BlockGroupDescriptor32 {
            block_bitmap_lo: read_u32(img, offset),
            inode_bitmap_lo: read_u32(img, offset + 4),
            inode_table_lo: read_u32(img, offset + 8),
            free_blocks_count_lo: read_u16(img, offset + 12),
            free_inodes_count_lo: read_u16(img, offset + 14),
            used_dirs_count_lo: read_u16(img, offset + 16),
            flags: read_u16(img, offset + 18),
            exclude_bitmap_lo: read_u32(img, offset + 20),
            block_bitmap_csum_lo: read_u16(img, offset + 24),
            inode_bitmap_csum_lo: read_u16(img, offset + 26),
            itable_unused_lo: read_u16(img, offset + 28),
            checksum: read_u16(img, offset + 30),
        };
        let bgd = if is_64bit {
            BlockGroupDescriptor {
                descriptor32,
                block_bitmap_hi: read_u32(img, offset + 32),
                inode_bitmap_hi: read_u32(img, offset + 36),
                inode_table_hi: read_u32(img, offset + 40),
                free_blocks_count_hi: read_u16(img, offset + 44),
                free_inodes_count_hi: read_u16(img, offset + 46),
                used_dirs_count_hi: read_u16(img, offset + 48),
                itable_unused_hi: read_u16(img, offset + 50),
                exclude_bitmap_hi: read_u32(img, offset + 52),
                block_bitmap_csum_hi: read_u16(img, offset + 56),
                inode_bitmap_csum_hi: read_u16(img, offset + 58),
                reserved: read_u32(img, offset + 60),
            }
        } else {
            BlockGroupDescriptor {
                descriptor32,
                block_bitmap_hi: 0,
                inode_bitmap_hi: 0,
                inode_table_hi: 0,
                free_blocks_count_hi: 0,
                free_inodes_count_hi: 0,
                used_dirs_count_hi: 0,
                itable_unused_hi: 0,
                exclude_bitmap_hi: 0,
                block_bitmap_csum_hi: 0,
                inode_bitmap_csum_hi: 0,
                reserved: 0,
            }
        };
        Ok(bgd)
    }
}

} // verus!
