//! Lazy iteration over the entries of a directory: walk the directory
//! inode's extents in order, decoding one entry per step and skipping `.`
//! and `..`.

use vstd::prelude::*;

use crate::entry::{DirEntryEnum, DirEntryView};
use crate::errors::ExtfsError;
use crate::extent::{ext_bytes, next_ent, Extent, NextEnt};

verus! {

/// Outcome of one iteration step over a directory's extent list.
pub enum RdStep {
    /// No extents remain: iteration is over.
    Done,
    /// A malformed record.
    Fail,
    /// An entry, and the extent index and in-extent offset that follow it.
    Out(DirEntryView, int, int),
}

/// What one `ReadDir::next` call yields from iteration state
/// `(idx, off)`: extents whose scan is exhausted roll forward, and an entry
/// that ends its extent rolls the state forward with it. A tail entry ends
/// only its own extent's scan, never the whole iteration: on images with
/// metadata checksums every directory block ends in a tail, so stopping at
/// the first one would hide the entries of every later block.
pub open spec fn rd_step(
    img: Seq<u8>,
    exts: Seq<Extent>,
    bs: int,
    ft: bool,
    idx: int,
    off: int,
) -> RdStep
    decreases exts.len() - idx,
{
    if idx < 0 || idx >= exts.len() {
        RdStep::Done
    } else {
        match next_ent(img, exts[idx], bs, ft, off) {
            NextEnt::Fail => RdStep::Fail,
            NextEnt::Stop => rd_step(img, exts, bs, ft, idx + 1, 0),
            NextEnt::Out(v, noff) => {
                if noff >= ext_bytes(exts[idx], bs) {
                    RdStep::Out(v, idx + 1, 0)
                } else {
                    RdStep::Out(v, idx, noff)
                }
            },
        }
    }
}

/// A directory iterator: owns the image and the directory's extent list.
pub struct ReadDir {
    pub img: Vec<u8>,
    pub extents: Vec<Extent>,
    pub idx: usize,
    pub extent_offset: u64,
    pub block_size: u64,
    pub feature_incompat_filetype: bool,
}

impl ReadDir {
    pub fn new(reader: Vec<u8>, extents: Vec<Extent>, block_size: u64, feature_incompat_filetype: bool) -> (r:
        ReadDir)
        ensures
            r.img@ == reader@,
            r.extents@ == extents@,
            r.idx == 0,
            r.extent_offset == 0,
            r.block_size == block_size,
            r.feature_incompat_filetype == feature_incompat_filetype,
    {
        ReadDir { img: reader, extents, idx: 0, extent_offset: 0, block_size, feature_incompat_filetype }
    }

    /// Yield the next entry, or `None` when the directory is exhausted.
    /// Entries named `.` and `..` never come out.
    pub fn next(&mut self) -> (r: Option<Result<DirEntryEnum, ExtfsError>>)
        ensures
            final(self).img == old(self).img,
            final(self).extents == old(self).extents,
            final(self).block_size == old(self).block_size,
            final(self).feature_incompat_filetype == old(self).feature_incompat_filetype,
            (rd_step(
                old(self).img@,
                old(self).extents@,
                old(self).block_size as int,
                old(self).feature_incompat_filetype,
                old(self).idx as int,
                old(self).extent_offset as int,
            ) is Done ==> r is None),
            (rd_step(
                old(self).img@,
                old(self).extents@,
                old(self).block_size as int,
                old(self).feature_incompat_filetype,
                old(self).idx as int,
                old(self).extent_offset as int,
            ) is Fail ==> (r matches Some(Err(e)) && e is Other)),
            (rd_step(
                old(self).img@,
                old(self).extents@,
                old(self).block_size as int,
                old(self).feature_incompat_filetype,
                old(self).idx as int,
                old(self).extent_offset as int,
            ) matches RdStep::Out(v, ni, no) ==> (r matches Some(Ok(ent)) && ent@ == v
                && final(self).idx == ni && final(self).extent_offset == no)),
            (r matches Some(Ok(ent)) ==> !ent@.is_tail && !ent@.is_dot() && !ent@.is_dotdot()),
    {
        let ghost goal = rd_step(
            self.img@,
            self.extents@,
            self.block_size as int,
            self.feature_incompat_filetype,
            self.idx as int,
            self.extent_offset as int,
        );
        loop
            invariant
                self.img == old(self).img,
                self.extents == old(self).extents,
                self.block_size == old(self).block_size,
                self.feature_incompat_filetype == old(self).feature_incompat_filetype,
                rd_step(
                    self.img@,
                    self.extents@,
                    self.block_size as int,
                    self.feature_incompat_filetype,
                    self.idx as int,
                    self.extent_offset as int,
                ) == goal,
                goal == rd_step(
                    old(self).img@,
                    old(self).extents@,
                    old(self).block_size as int,
                    old(self).feature_incompat_filetype,
                    old(self).idx as int,
                    old(self).extent_offset as int,
                ),
            decreases self.extents@.len() - self.idx,
        {
            if self.idx >= self.extents.len() {
                return None;
            }
            let e = self.extents[self.idx];
            match e.read_entry(
                &self.img,
                self.block_size,
                self.feature_incompat_filetype,
                self.extent_offset,
            ) {
                Ok(Some((ent, noff))) => {
                    proof {
                        vstd::arithmetic::mul::lemma_mul_upper_bound(
                            e.len as int,
                            u16::MAX as int,
                            self.block_size as int,
                            u64::MAX as int,
                        );
                    }
                    let eb128: u128 = (e.len as u128) * (self.block_size as u128);
                    if noff as u128 >= eb128 {
                        self.extent_offset = 0;
                        self.idx = self.idx + 1;
                    } else {
                        self.extent_offset = noff;
                    }
                    return Some(Ok(ent));
                },
                Ok(None) => {
                    self.extent_offset = 0;
                    self.idx = self.idx + 1;
                },
                Err(err) => {
                    return Some(Err(err));
                },
            }
        }
    }
}

} // verus!
