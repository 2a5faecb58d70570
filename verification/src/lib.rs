//! Read-only traversal of an ext4 disk image held as an in-memory byte
//! image. On-disk metadata (superblock, group descriptors, inodes, extent
//! trees, directory entries) is decoded little-endian by hand and lifted
//! into a small filesystem API: resolve an absolute path, list a directory,
//! read a regular file, follow a symbolic link, fetch metadata.

mod codec;
mod constants;
mod descriptor;
mod entry;
mod errors;
mod extent;
mod file;
mod fs;
mod inode;
mod metadata;
mod read_dir;
mod superblock;
mod text;

pub use codec::compute_u64;
pub use descriptor::{BlockGroupDescriptor, BlockGroupDescriptor32};
pub use entry::{DirEntry, DirEntry2, DirEntryEnum, DirEntryTail, DxRoot};
pub use extent::{Extent, ExtentHeader, ExtentIdx, ExtentOrIdx, ExtentTail};
pub use errors::ExtfsError;
pub use file::{File, SeekFrom};
pub use fs::FileSystem;
pub use metadata::Metadata;
pub use inode::Inode;
pub use read_dir::ReadDir;
pub use superblock::SuperBlock;
