//! The on-disk inode record: mode, owner, size, times, and the 60-byte
//! block area that holds the extent tree root, or an inline symlink target.

use vstd::prelude::*;

use crate::codec::{le16, le32, spec_u64, read_u16, read_u32, compute_u64};
use crate::constants::{INODE_FLAG_EXTENTS, INODE_MODE_DIR, INODE_MODE_LNK, INODE_MODE_REG};
use crate::errors::ExtfsError;
use crate::extent::{
    cov, cov_from, ext_bytes, ext_loc, file_window, fpos, fpos_from, imin, lemma_cov_from_nonneg,
    lemma_cov_split, lemma_fpos_prefix, node_records, parse_node_records, pre_bytes, reads_ok,
    walk_data, walk_node, Extent, ExtentOrIdx,
};
use crate::file::File;
use crate::read_dir::ReadDir;

verus! {

/// What an inode looks like in specifications.
pub struct InodeView {
    pub mode: u16,
    pub uid: u16,
    pub size_lo: u32,
    pub atime: u32,
    pub ctime: u32,
    pub mtime: u32,
    pub dtime: u32,
    pub gid: u16,
    pub links_count: u16,
    pub blocks_lo: u32,
    pub flags: u32,
    pub block: Seq<u8>,
    pub generation: u32,
    pub file_acl_lo: u32,
    pub size_high: u32,
}

impl InodeView {
    /// File size in bytes: the two on-disk halves combined.
    pub open spec fn size(self) -> int {
        spec_u64(self.size_lo, self.size_high)
    }

    pub open spec fn is_dir(self) -> bool {
        self.mode & 0xF000 == INODE_MODE_DIR
    }

    pub open spec fn is_regular(self) -> bool {
        self.mode & 0xF000 == INODE_MODE_REG
    }

    pub open spec fn is_symlink(self) -> bool {
        self.mode & 0xF000 == INODE_MODE_LNK
    }

    pub open spec fn uses_extents(self) -> bool {
        self.flags & INODE_FLAG_EXTENTS != 0
    }

    /// The block area always spans 60 bytes.
    pub open spec fn wf(self) -> bool {
        self.block.len() == 60
    }
}

/// The 256-byte on-disk inode record; only the decoded head is kept, the
/// block area as raw bytes.
#[derive(Debug, Clone)]
pub struct Inode {
    pub mode: u16,
    pub uid: u16,
    /// Lower 32 bits of size in bytes.
    pub size_lo: u32,
    /// Last access time, in seconds since the epoch.
    pub atime: u32,
    /// Last inode change time, in seconds since the epoch.
    pub ctime: u32,
    /// Last data modification time, in seconds since the epoch.
    pub mtime: u32,
    pub dtime: u32,
    pub gid: u16,
    pub links_count: u16,
    pub blocks_lo: u32,
    pub flags: u32,
    /// Extent tree root, or the inline target of a short symlink.
    pub block: Vec<u8>,
    pub generation: u32,
    pub file_acl_lo: u32,
    /// Upper 32 bits of file/directory size.
    pub size_high: u32,
}

impl View for Inode {
    type V = InodeView;

    open spec fn view(&self) -> InodeView {
        InodeView {
            mode: self.mode,
            uid: self.uid,
            size_lo: self.size_lo,
            atime: self.atime,
            ctime: self.ctime,
            mtime: self.mtime,
            dtime: self.dtime,
            gid: self.gid,
            links_count: self.links_count,
            blocks_lo: self.blocks_lo,
            flags: self.flags,
            block: self.block@,
            generation: self.generation,
            file_acl_lo: self.file_acl_lo,
            size_high: self.size_high,
        }
    }
}

/// The inode fields decoded little-endian at byte `off` of the image.
pub open spec fn inode_at(img: Seq<u8>, off: int) -> InodeView {
    InodeView {
        mode: le16(img, off) as u16,
        uid: le16(img, off + 2) as u16,
        size_lo: le32(img, off + 4) as u32,
        atime: le32(img, off + 8) as u32,
        ctime: le32(img, off + 12) as u32,
        mtime: le32(img, off + 16) as u32,
        dtime: le32(img, off + 20) as u32,
        gid: le16(img, off + 24) as u16,
        links_count: le16(img, off + 26) as u16,
        blocks_lo: le32(img, off + 28) as u32,
        flags: le32(img, off + 32) as u32,
        block: img.subrange(off + 40, off + 100),
        generation: le32(img, off + 100) as u32,
        file_acl_lo: le32(img, off + 104) as u32,
        size_high: le32(img, off + 108) as u32,
    }
}

/// What decoding an inode record at byte `off` returns: the record, or a
/// decode error when its 160 interpreted bytes run past the image.
pub open spec fn inode_parse(img: Seq<u8>, off: int) -> Result<InodeView, ExtfsError> {
    if off + 160 > img.len() {
        Err(ExtfsError::Decode)
    } else {
        Ok(inode_at(img, off))
    }
}

/// The extent list of an inode: the tree walk rooted in its block area.
pub open spec fn spec_extents(ino: InodeView, img: Seq<u8>, bs: int) -> Result<
    Seq<Extent>,
    ExtfsError,
> {
    walk_node(img, ino.block, 0, bs, 0xFFFF)
}

/// What reading a whole file returns on any inode and image: the bytes of
/// the window `[0, min(size, coverage))` of the extent layout, or the walk's
/// error, or a decode error when a needed byte lies past the image.
pub open spec fn bytes_read_spec(ino: InodeView, img: Seq<u8>, bs: int) -> Result<
    Seq<u8>,
    ExtfsError,
> {
    match spec_extents(ino, img, bs) {
        Err(e) => Err(e),
        Ok(exts) => {
            let m = imin(ino.size(), cov(exts, bs));
            if reads_ok(img, exts, bs, 0, m) {
                Ok(file_window(img, exts, bs, 0, m))
            } else {
                Err(ExtfsError::Decode)
            }
        },
    }
}

/// What reading a symlink target returns: the first `size` bytes of the
/// block area when the target is inline (`size <= 60`), else the full
/// extent-mapped contents.
pub open spec fn link_read_spec(ino: InodeView, img: Seq<u8>, bs: int) -> Result<
    Seq<u8>,
    ExtfsError,
> {
    if ino.size() <= 60 {
        Ok(ino.block.subrange(0, ino.size()))
    } else {
        bytes_read_spec(ino, img, bs)
    }
}

/// Law: reading a regular file whole yields exactly `min(size, coverage)`
/// bytes, so exactly `size` bytes whenever the file's extents cover its
/// size — as they do on every intact image.
pub proof fn lemma_read_yields_file_size(ino: InodeView, img: Seq<u8>, bs: int)
    requires
        bs >= 0,
    ensures
        spec_extents(ino, img, bs) matches Ok(exts) ==> (bytes_read_spec(ino, img, bs) matches Ok(s)
            ==> s.len() == imin(ino.size(), cov(exts, bs))),
        spec_extents(ino, img, bs) matches Ok(exts) ==> (cov(exts, bs) >= ino.size() ==> (
        bytes_read_spec(ino, img, bs) matches Ok(s) ==> s.len() == ino.size())),
{
    match spec_extents(ino, img, bs) {
        Ok(exts) => {
            lemma_cov_from_nonneg(exts, bs, 0);
        },
        Err(_) => {},
    }
}

impl Inode {
    /// Decode the inode record at byte `offset` of the image.
    pub fn from_reader(img: &Vec<u8>, offset: usize) -> (r: Result<Inode, ExtfsError>)
        ensures
            inode_parse(img@, offset as int) matches Ok(v) ==> r is Ok && r->Ok_0@ == v && v.wf(),
            inode_parse(img@, offset as int) matches Err(e) ==> r == Err::<Inode, ExtfsError>(e),
    {
        let n = img.len();
        if offset > n || n - offset < 160 {
            return Err(ExtfsError::Decode);
        }
        let block = vstd::slice::slice_to_vec(
            vstd::slice::slice_subrange(img.as_slice(), offset + 40, offset + 100),
        );
        let ino = Inode {
            mode: read_u16(img, offset),
            uid: read_u16(img, offset + 2),
            size_lo: read_u32(img, offset + 4),
            atime: read_u32(img, offset + 8),
            ctime: read_u32(img, offset + 12),
            mtime: read_u32(img, offset + 16),
            dtime: read_u32(img, offset + 20),
            gid: read_u16(img, offset + 24),
            links_count: read_u16(img, offset + 26),
            blocks_lo: read_u32(img, offset + 28),
            flags: read_u32(img, offset + 32),
            block,
            generation: read_u32(img, offset + 100),
            file_acl_lo: read_u32(img, offset + 104),
            size_high: read_u32(img, offset + 108),
        };
        Ok(ino)
    }

    /// Get file/directory/symlink size.
    pub fn get_size(&self) -> (r: u64)
        ensures
            r == self@.size(),
    {
        compute_u64(self.size_lo, self.size_high)
    }

    /// Check whether it's a directory.
    pub fn is_dir(&self) -> (r: bool)
        ensures
            r == self@.is_dir(),
    {
        self.mode & 0xF000 == INODE_MODE_DIR
    }

    /// Check whether it's a regular file.
    pub fn is_regular(&self) -> (r: bool)
        ensures
            r == self@.is_regular(),
    {
        self.mode & 0xF000 == INODE_MODE_REG
    }

    /// Check whether it's a symlink.
    pub fn is_symlink(&self) -> (r: bool)
        ensures
            r == self@.is_symlink(),
    {
        self.mode & 0xF000 == INODE_MODE_LNK
    }

    /// Check whether extents are used.
    pub fn uses_extents(&self) -> (r: bool)
        ensures
            r == self@.uses_extents(),
    {
        self.flags & INODE_FLAG_EXTENTS != 0
    }

    /// Decode the record list of one extent tree node at `off` of a region.
    pub fn parse_extents(data: &Vec<u8>, off: usize) -> (r: Result<Vec<ExtentOrIdx>, ExtfsError>)
        ensures
            node_records(data@, off as int) matches Ok(s) ==> r is Ok && r->Ok_0@ == s,
            node_records(data@, off as int) matches Err(e) ==> r == Err::<
                Vec<ExtentOrIdx>,
                ExtfsError,
            >(e),
    {
        parse_node_records(data, off)
    }

    /// Get all extents of the inode, walking the tree rooted in its block
    /// area depth-first.
    pub fn extents(&self, block_size: u64, img: &Vec<u8>) -> (r: Result<Vec<Extent>, ExtfsError>)
        ensures
            spec_extents(self@, img@, block_size as int) matches Ok(s) ==> r is Ok && r->Ok_0@ == s,
            spec_extents(self@, img@, block_size as int) matches Err(e) ==> r == Err::<
                Vec<Extent>,
                ExtfsError,
            >(e),
    {
        walk_data(img, &self.block, 0, block_size, 0xFFFF)
    }

    /// Read the file's bytes across its extent list, truncated to the
    /// file's size.
    pub fn read_bytes(&self, block_size: u64, img: &Vec<u8>) -> (r: Result<Vec<u8>, ExtfsError>)
        ensures
            bytes_read_spec(self@, img@, block_size as int) matches Ok(s) ==> r is Ok && r->Ok_0@
                == s,
            bytes_read_spec(self@, img@, block_size as int) matches Err(e) ==> r == Err::<
                Vec<u8>,
                ExtfsError,
            >(e),
    {
        let ghost bs = block_size as int;
        let extents = match self.extents(block_size, img) {
            Ok(x) => x,
            Err(e) => {
                return Err(e);
            },
        };
        let ghost exts = extents@;
        let ghost m = imin(self@.size(), cov(exts, bs));
        let size = self.get_size();
        let mut data: Vec<u8> = Vec::new();
        let mut remaining: u64 = size;
        let mut i: usize = 0;
        while i < extents.len() && remaining > 0
            invariant
                bs == block_size,
                exts == extents@,
                spec_extents(self@, img@, bs) == Ok::<Seq<Extent>, ExtfsError>(exts),
                i <= exts.len(),
                size == spec_u64(self.size_lo, self.size_high),
                m == imin(size as int, cov(exts, bs)),
                data@.len() + remaining == size,
                data@.len() == imin(pre_bytes(exts, bs, i as int), size as int),
                forall|j: int|
                    0 <= j < data@.len() ==> 0 <= #[trigger] fpos(exts, bs, j) < img@.len()
                        && data@[j] == img@[fpos(exts, bs, j)],
            decreases exts.len() - i,
        {
            let e = extents[i];
            proof {
                lemma_cov_split(exts, bs, i as int);
                lemma_cov_split(exts, bs, i + 1);
                lemma_cov_from_nonneg(exts, bs, i + 1);
                vstd::arithmetic::mul::lemma_mul_nonnegative(e.len as int, bs);
                vstd::arithmetic::mul::lemma_mul_nonnegative(ext_loc(e), bs);
            }
            let ghost take = imin(ext_bytes(e, bs), remaining as int);
            match e.read_bytes(img, block_size, 0, remaining) {
                Err(_) => {
                    proof {
                        let j = pre_bytes(exts, bs, i as int) + take - 1;
                        lemma_fpos_prefix(exts, bs, i as int, take - 1);
                        assert(fpos(exts, bs, j) == ext_loc(e) * bs + (take - 1));
                        assert(fpos(exts, bs, j) >= img@.len());
                        assert(0 <= j < m);
                        assert(!reads_ok(img@, exts, bs, 0, m));
                    }
                    return Err(ExtfsError::Decode);
                },
                Ok(chunk) => {
                    proof {
                        let base = data@.len() as int;
                        assert forall|j: int| base <= j < base + chunk@.len() implies 0 <= #[trigger] fpos(
                            exts,
                            bs,
                            j,
                        ) < img@.len() && chunk@[j - base] == img@[fpos(exts, bs, j)] by {
                            lemma_fpos_prefix(exts, bs, i as int, j - base);
                            assert(fpos_from(exts, bs, i as int, j - base) == ext_loc(e) * bs + (j
                                - base));
                        }
                    }
                    let clen = chunk.len();
                    remaining = remaining - clen as u64;
                    let mut c = chunk;
                    data.append(&mut c);
                    i = i + 1;
                },
            }
        }
        proof {
            lemma_cov_split(exts, bs, i as int);
            lemma_cov_from_nonneg(exts, bs, i as int);
            if i == exts.len() {
                assert(cov_from(exts, bs, i as int) == 0);
            }
            assert(data@.len() == m);
            assert(reads_ok(img@, exts, bs, 0, m));
            assert(data@ =~= file_window(img@, exts, bs, 0, m));
        }
        Ok(data)
    }

    /// Read a symlink's target bytes: the block area holds them inline when
    /// the target is at most 60 bytes long; otherwise they are read through
    /// the extent tree like file contents.
    pub fn read_link(&self, block_size: u64, img: &Vec<u8>) -> (r: Result<Vec<u8>, ExtfsError>)
        requires
            self@.wf(),
        ensures
            link_read_spec(self@, img@, block_size as int) matches Ok(s) ==> r is Ok && r->Ok_0@
                == s,
            link_read_spec(self@, img@, block_size as int) matches Err(e) ==> r == Err::<
                Vec<u8>,
                ExtfsError,
            >(e),
    {
        let size = self.get_size();
        if size <= self.block.len() as u64 {
            let target = vstd::slice::slice_to_vec(
                vstd::slice::slice_subrange(self.block.as_slice(), 0, size as usize),
            );
            return Ok(target);
        }
        self.read_bytes(block_size, img)
    }

    /// Returns an iterator over the entries within a directory, consuming
    /// the image.
    pub fn read_dir(&self, block_size: u64, feature_incompat_filetype: bool, reader: Vec<u8>) -> (r:
        Result<ReadDir, ExtfsError>)
        ensures
            spec_extents(self@, reader@, block_size as int) matches Ok(s) ==> r is Ok && {
                &&& r->Ok_0.img@ == reader@
                &&& r->Ok_0.extents@ == s
                &&& r->Ok_0.idx == 0
                &&& r->Ok_0.extent_offset == 0
                &&& r->Ok_0.block_size == block_size
                &&& r->Ok_0.feature_incompat_filetype == feature_incompat_filetype
            },
            spec_extents(self@, reader@, block_size as int) matches Err(e) ==> r == Err::<
                ReadDir,
                ExtfsError,
            >(e),
    {
        let extents = match self.extents(block_size, &reader) {
            Ok(x) => x,
            Err(e) => {
                return Err(e);
            },
        };
        Ok(ReadDir::new(reader, extents, block_size, feature_incompat_filetype))
    }

    /// Returns a positional reader over the file's extents, consuming the
    /// image.
    pub fn read_file(&self, block_size: u64, reader: Vec<u8>) -> (r: Result<File, ExtfsError>)
        ensures
            spec_extents(self@, reader@, block_size as int) matches Ok(s) ==> r is Ok && {
                &&& r->Ok_0.img@ == reader@
                &&& r->Ok_0.extents@ == s
                &&& r->Ok_0.len == self@.size()
                &&& r->Ok_0.current == 0
                &&& r->Ok_0.block_size == block_size
            },
            spec_extents(self@, reader@, block_size as int) matches Err(e) ==> r == Err::<
                File,
                ExtfsError,
            >(e),
    {
        let extents = match self.extents(block_size, &reader) {
            Ok(x) => x,
            Err(e) => {
                return Err(e);
            },
        };
        let size = self.get_size();
        Ok(File::new(reader, extents, size, block_size))
    }
}

} // verus!
