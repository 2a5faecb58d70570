//! A metadata view over a resolved inode: type predicates, size, owner,
//! permissions and timestamps.

use vstd::prelude::*;

use crate::inode::Inode;

verus! {

/// Information about a file, directory or symlink, as its inode records it.
pub struct Metadata {
    pub inode: Inode,
}

impl Metadata {
    pub fn new(inode: Inode) -> (r: Metadata)
        ensures
            r.inode == inode,
    {
        Metadata { inode }
    }

    pub fn is_dir(&self) -> (r: bool)
        ensures
            r == self.inode@.is_dir(),
    {
        self.inode.is_dir()
    }

    pub fn is_file(&self) -> (r: bool)
        ensures
            r == self.inode@.is_regular(),
    {
        self.inode.is_regular()
    }

    pub fn is_symlink(&self) -> (r: bool)
        ensures
            r == self.inode@.is_symlink(),
    {
        self.inode.is_symlink()
    }

    /// Size in bytes.
    pub fn len(&self) -> (r: u64)
        ensures
            r == self.inode@.size(),
    {
        self.inode.get_size()
    }

    pub fn uid(&self) -> (r: u16)
        ensures
            r == self.inode@.uid,
    {
        self.inode.uid
    }

    pub fn gid(&self) -> (r: u16)
        ensures
            r == self.inode@.gid,
    {
        self.inode.gid
    }

    /// The low nine permission bits of the mode.
    pub fn permissions(&self) -> (r: u16)
        ensures
            r == self.inode@.mode & 0o777,
    {
        self.inode.mode & 0o777
    }

    /// Last data modification time, in seconds since the Unix epoch.
    pub fn modified(&self) -> (r: u32)
        ensures
            r == self.inode@.mtime,
    {
        self.inode.mtime
    }

    /// Last access time, in seconds since the Unix epoch.
    pub fn accessed(&self) -> (r: u32)
        ensures
            r == self.inode@.atime,
    {
        self.inode.atime
    }

    /// Last inode change time, in seconds since the Unix epoch.
    pub fn created(&self) -> (r: u32)
        ensures
            r == self.inode@.ctime,
    {
        self.inode.ctime
    }
}

} // verus!
