use vstd::prelude::*;

use crate::entry::DirEntryEnum;

verus! {

/// Everything that can go wrong while traversing an image.
///
/// Path-carrying variants hold the path the failing call was given.
#[derive(Debug, Clone, PartialEq)]
pub enum ExtfsError {
    /// Short read or malformed fixed-width record.
    Decode,
    /// Superblock magic differs from `0xEF53`; carries the magic found.
    InvalidSuperBlockMagic(u16),
    /// Block-derived and inode-derived group counts disagree.
    BlockGroupCountMismatch { blocks: u64, inodes: u64 },
    /// An inode number implies an out-of-range block group.
    BlockGroupDescriptorNotFound(u64),
    /// Extent header magic differs from `0xF30A`; carries the magic found.
    InvalidExtentHeaderMagic(u16),
    /// A relative path was supplied where an absolute one is required.
    RequireAbsolutePath(String),
    /// `..` would escape the root.
    UnexpectedParentDir(String),
    /// The path could not be walked (empty resolution stack).
    InvalidPath(String),
    /// Directory lookup miss.
    NoSuchFileOrDirectory(String),
    /// The resolved inode is not a directory.
    IsNotDirectory(String),
    /// The resolved inode is not a symbolic link.
    IsNotSymlink(String),
    /// The resolved inode is not a regular file.
    IsNotRegular(String),
    /// A tail entry turned up where an inode-bearing entry was required.
    UnexpectedDirEntry(DirEntryEnum),
    /// The image lacks the extents feature, which is required.
    Unsupported,
    /// Anything else, described in words.
    Other(String),
}

impl ExtfsError {
    /// A short description of the error kind, for display by callers.
    pub fn describe(&self) -> (r: &'static str)
        ensures
            r@.len() > 0,
    {
        proof {
            reveal_strlit("decode failed");
            reveal_strlit("invalid super block magic");
            reveal_strlit("block group count mismatch");
            reveal_strlit("block group descriptor not found");
            reveal_strlit("invalid extent header magic");
            reveal_strlit("require absolute path");
            reveal_strlit("unexpected parent dir in the path");
            reveal_strlit("invalid path");
            reveal_strlit("no such file or directory");
            reveal_strlit("is not directory");
            reveal_strlit("is not symlink");
            reveal_strlit("is not regular file");
            reveal_strlit("unexpected dir entry");
            reveal_strlit("unsupported image");
            reveal_strlit("other");
        }
        match self {
            ExtfsError::Decode => "decode failed",
            ExtfsError::InvalidSuperBlockMagic(_) => "invalid super block magic",
            ExtfsError::BlockGroupCountMismatch { .. } => "block group count mismatch",
            ExtfsError::BlockGroupDescriptorNotFound(_) => "block group descriptor not found",
            ExtfsError::InvalidExtentHeaderMagic(_) => "invalid extent header magic",
            ExtfsError::RequireAbsolutePath(_) => "require absolute path",
            ExtfsError::UnexpectedParentDir(_) => "unexpected parent dir in the path",
            ExtfsError::InvalidPath(_) => "invalid path",
            ExtfsError::NoSuchFileOrDirectory(_) => "no such file or directory",
            ExtfsError::IsNotDirectory(_) => "is not directory",
            ExtfsError::IsNotSymlink(_) => "is not symlink",
            ExtfsError::IsNotRegular(_) => "is not regular file",
            ExtfsError::UnexpectedDirEntry(_) => "unexpected dir entry",
            ExtfsError::Unsupported => "unsupported image",
            ExtfsError::Other(_) => "other",
        }
    }
}

} // verus!
