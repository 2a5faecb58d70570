//! The extent tree: a depth-variable tree rooted in an inode's 60-byte
//! block area, mapping a file's bytes to runs of physical blocks. Internal
//! nodes point at further 12-byte-header nodes elsewhere in the image.

use vstd::prelude::*;

use crate::codec::{le16, le32, read_u16, read_u32, spec_u64, compute_u64};
use crate::constants::EXTENT_HEADER_MAGIC;
use crate::entry::{parse_ent, DirEntryEnum, DirEntryView, EntOut};
use crate::errors::ExtfsError;

verus! {

pub open spec fn imin(a: int, b: int) -> int {
    if a < b {
        a
    } else {
        b
    }
}

/// The header that begins every extent tree node.
#[derive(Debug, Clone, Copy)]
pub struct ExtentHeader {
    pub magic: u16,
    pub entries: u16,
    pub max: u16,
    pub depth: u16,
    pub generation: u32,
}

/// Internal node record: points at a child node one level down.
#[derive(Debug, Clone, Copy)]
pub struct ExtentIdx {
    pub block: u32,
    pub leaf_lo: u32,
    pub leaf_hi: u16,
    pub unused: u16,
}

/// Leaf record: a contiguous run of physical blocks.
#[derive(Debug, Clone, Copy, PartialEq, Eq, Structural)]
pub struct Extent {
    /// First file block number that this extent covers.
    pub block: u32,
    /// Number of blocks covered by the extent.
    pub len: u16,
    /// Upper 16 bits of the block number the extent points to.
    pub start_hi: u16,
    /// Lower 32 bits of the block number the extent points to.
    pub start_lo: u32,
}

/// Trailing checksum record of an extent tree node.
#[derive(Debug, Clone, Copy)]
pub struct ExtentTail {
    pub checksum: u32,
}

/// One record of an extent tree node: a leaf or an index.
#[derive(Debug, Clone, Copy)]
pub enum ExtentOrIdx {
    Extent(Extent),
    Idx(ExtentIdx),
}

/// The header fields decoded at `off` of a node region.
pub open spec fn eh_of(data: Seq<u8>, off: int) -> ExtentHeader {
    ExtentHeader {
        magic: le16(data, off) as u16,
        entries: le16(data, off + 2) as u16,
        max: le16(data, off + 4) as u16,
        depth: le16(data, off + 6) as u16,
        generation: le32(data, off + 8) as u32,
    }
}

/// What `ExtentHeader::from_reader` returns: the header, a decode error on
/// a short region, or the magic error when the magic is not `0xF30A`.
pub open spec fn eh_parse(data: Seq<u8>, off: int) -> Result<ExtentHeader, ExtfsError> {
    if off + 12 > data.len() {
        Err(ExtfsError::Decode)
    } else {
        let h = eh_of(data, off);
        if h.magic != EXTENT_HEADER_MAGIC {
            Err(ExtfsError::InvalidExtentHeaderMagic(h.magic))
        } else {
            Ok(h)
        }
    }
}

/// The leaf record decoded at `off`.
pub open spec fn ext_of(data: Seq<u8>, off: int) -> Extent {
    Extent {
        block: le32(data, off) as u32,
        len: le16(data, off + 4) as u16,
        start_hi: le16(data, off + 6) as u16,
        start_lo: le32(data, off + 8) as u32,
    }
}

/// The index record decoded at `off`.
pub open spec fn idx_of(data: Seq<u8>, off: int) -> ExtentIdx {
    ExtentIdx {
        block: le32(data, off) as u32,
        leaf_lo: le32(data, off + 4) as u32,
        leaf_hi: le16(data, off + 8) as u16,
        unused: le16(data, off + 10) as u16,
    }
}

/// Physical byte position of an index record's child node.
pub open spec fn idx_loc(ix: ExtentIdx) -> int {
    spec_u64(ix.leaf_lo, ix.leaf_hi as u32)
}

/// Physical block number an extent points to.
pub open spec fn ext_loc(e: Extent) -> int {
    spec_u64(e.start_lo, e.start_hi as u32)
}

/// Byte span an extent covers.
pub open spec fn ext_bytes(e: Extent, bs: int) -> int {
    e.len * bs
}

/// The records of one tree node at `off` of a region: header plus
/// `entries` leaves (depth zero) or indices (otherwise).
pub open spec fn node_records(data: Seq<u8>, off: int) -> Result<Seq<ExtentOrIdx>, ExtfsError> {
    match eh_parse(data, off) {
        Err(e) => Err(e),
        Ok(h) => {
            if off + 12 + 12 * h.entries > data.len() {
                Err(ExtfsError::Decode)
            } else if h.depth == 0 {
                Ok(
                    Seq::new(
                        h.entries as nat,
                        |i: int| ExtentOrIdx::Extent(ext_of(data, off + 12 + 12 * i)),
                    ),
                )
            } else {
                Ok(
                    Seq::new(
                        h.entries as nat,
                        |i: int| ExtentOrIdx::Idx(idx_of(data, off + 12 + 12 * i)),
                    ),
                )
            }
        },
    }
}

/// The flat leaf list of the tree node at `off` of `data`, depth-first.
/// `data` is the node's own region (the inode block area for the root, the
/// whole image for on-disk nodes); children always live in the image. A
/// node deeper than `allowed` is malformed: on intact images every child
/// is exactly one level shallower than its parent, so the bound never
/// binds, and it keeps the walk finite on corrupt ones.
pub open spec fn walk_node(img: Seq<u8>, data: Seq<u8>, start: int, bs: int, allowed: int) -> Result<
    Seq<Extent>,
    ExtfsError,
> decreases allowed, 0int,
{
    match eh_parse(data, start) {
        Err(e) => Err(e),
        Ok(h) => {
            if h.depth > allowed {
                Err(ExtfsError::Decode)
            } else if start + 12 + 12 * h.entries > data.len() {
                Err(ExtfsError::Decode)
            } else if h.depth == 0 {
                Ok(Seq::new(h.entries as nat, |i: int| ext_of(data, start + 12 + 12 * i)))
            } else {
                walk_kids(img, data, start, h.entries as int, bs, h.depth - 1)
            }
        },
    }
}

/// Leaves of the first `k` children of the node at `start`, concatenated;
/// the first failing child decides the error.
pub open spec fn walk_kids(
    img: Seq<u8>,
    data: Seq<u8>,
    start: int,
    k: int,
    bs: int,
    allowed: int,
) -> Result<Seq<Extent>, ExtfsError>
    decreases allowed, k,
{
    if k <= 0 {
        Ok(Seq::empty())
    } else {
        match walk_kids(img, data, start, k - 1, bs, allowed) {
            Err(e) => Err(e),
            Ok(pre) => {
                let ix = idx_of(data, start + 12 + 12 * (k - 1));
                match walk_node(img, img, idx_loc(ix) * bs, bs, allowed) {
                    Err(e) => Err(e),
                    Ok(sub) => Ok(pre + sub),
                }
            },
        }
    }
}

/// Law: every visited extent tree node carries magic `0xF30A`. A node
/// yields leaves only after its own header decoded with that magic, and a
/// header bearing any other magic fails the walk with exactly
/// `InvalidExtentHeaderMagic` of the magic found. Children are visited
/// only through `walk_kids`, whose recursive `walk_node` calls check the
/// same of every node below, so the fact holds of the whole walk.
pub proof fn lemma_walk_node_magic(img: Seq<u8>, data: Seq<u8>, start: int, bs: int, allowed: int)
    ensures
        walk_node(img, data, start, bs, allowed) is Ok ==> (eh_parse(data, start) matches Ok(h)
            && h.magic == EXTENT_HEADER_MAGIC),
        start + 12 <= data.len() && le16(data, start) != EXTENT_HEADER_MAGIC ==> walk_node(
            img,
            data,
            start,
            bs,
            allowed,
        ) == Err::<Seq<Extent>, ExtfsError>(
            ExtfsError::InvalidExtentHeaderMagic(le16(data, start) as u16),
        ),
{
}

/// A failing prefix of children decides the whole sweep.
proof fn lemma_walk_kids_extend_err(
    img: Seq<u8>,
    data: Seq<u8>,
    start: int,
    k: int,
    k2: int,
    bs: int,
    allowed: int,
)
    requires
        walk_kids(img, data, start, k, bs, allowed) is Err,
        k <= k2,
    ensures
        walk_kids(img, data, start, k2, bs, allowed) == walk_kids(img, data, start, k, bs, allowed),
    decreases k2 - k,
{
    if k2 > k {
        lemma_walk_kids_extend_err(img, data, start, k, k2 - 1, bs, allowed);
    }
}

impl ExtentHeader {
    /// Decode a node header at `off` of a region and validate its magic.
    pub fn from_reader(data: &Vec<u8>, off: usize) -> (r: Result<ExtentHeader, ExtfsError>)
        ensures
            r == eh_parse(data@, off as int),
            r matches Ok(h) ==> h.magic == EXTENT_HEADER_MAGIC,
    {
        let n = data.len();
        if off > n || n - off < 12 {
            return Err(ExtfsError::Decode);
        }
        let h = ExtentHeader {
            magic: read_u16(data, off),
            entries: read_u16(data, off + 2),
            max: read_u16(data, off + 4),
            depth: read_u16(data, off + 6),
            generation: read_u32(data, off + 8),
        };
        if h.magic != EXTENT_HEADER_MAGIC {
            return Err(ExtfsError::InvalidExtentHeaderMagic(h.magic));
        }
        Ok(h)
    }
}

impl ExtentIdx {
    /// Physical byte position of the child node this index points at.
    pub fn get_extent_loc(&self) -> (r: u64)
        ensures
            r == idx_loc(*self),
    {
        compute_u64(self.leaf_lo, self.leaf_hi as u32)
    }
}

/// Decode the record list of the node at `off` of a region.
pub(crate) fn parse_node_records(data: &Vec<u8>, off: usize) -> (r: Result<
    Vec<ExtentOrIdx>,
    ExtfsError,
>)
    ensures
        node_records(data@, off as int) matches Ok(s) ==> r is Ok && r->Ok_0@ == s,
        node_records(data@, off as int) matches Err(e) ==> r == Err::<Vec<ExtentOrIdx>, ExtfsError>(
            e,
        ),
{
    let n = data.len();
    let h = match ExtentHeader::from_reader(data, off) {
        Ok(h) => h,
        Err(e) => {
            return Err(e);
        },
    };
    // off + 12 <= n holds since the header decoded
    if (n - off - 12) / 12 < h.entries as usize {
        proof {
            assert(off + 12 + 12 * h.entries > n);
        }
        return Err(ExtfsError::Decode);
    }
    proof {
        assert(off + 12 + 12 * h.entries <= n);
    }
    let mut result: Vec<ExtentOrIdx> = Vec::new();
    let ghost target = node_records(data@, off as int)->Ok_0;
    let mut i: usize = 0;
    while i < h.entries as usize
        invariant
            i <= h.entries,
            off + 12 + 12 * h.entries <= n == data@.len(),
            node_records(data@, off as int) matches Ok(s) && s == target,
            target.len() == h.entries,
            result@ =~= target.subrange(0, i as int),
            h == eh_of(data@, off as int),
        decreases h.entries - i,
    {
        let p = off + 12 + 12 * i;
        if h.depth == 0 {
            let e = Extent {
                block: read_u32(data, p),
                len: read_u16(data, p + 4),
                start_hi: read_u16(data, p + 6),
                start_lo: read_u32(data, p + 8),
            };
            result.push(ExtentOrIdx::Extent(e));
        } else {
            let ix = ExtentIdx {
                block: read_u32(data, p),
                leaf_lo: read_u32(data, p + 4),
                leaf_hi: read_u16(data, p + 8),
                unused: read_u16(data, p + 10),
            };
            result.push(ExtentOrIdx::Idx(ix));
        }
        i = i + 1;
        proof {
            assert(result@ =~= target.subrange(0, i as int));
        }
    }
    proof {
        assert(result@ =~= target);
    }
    Ok(result)
}

/// Collect the leaves under the node at byte `start` of `data`, reading
/// children from the image, depth-first. `allowed` bounds the depth of the
/// node itself.
pub(crate) fn walk_data(
    img: &Vec<u8>,
    data: &Vec<u8>,
    start: usize,
    block_size: u64,
    allowed: u16,
) -> (r: Result<Vec<Extent>, ExtfsError>)
    ensures
        walk_node(img@, data@, start as int, block_size as int, allowed as int) matches Ok(s) ==> r
            is Ok && r->Ok_0@ == s,
        walk_node(img@, data@, start as int, block_size as int, allowed as int) matches Err(e) ==> r
            == Err::<Vec<Extent>, ExtfsError>(e),
    decreases allowed as int,
{
    let h = match ExtentHeader::from_reader(data, start) {
        Ok(h) => h,
        Err(e) => {
            return Err(e);
        },
    };
    if h.depth > allowed {
        return Err(ExtfsError::Decode);
    }
    let records = match parse_node_records(data, start) {
        Ok(rs) => rs,
        Err(e) => {
            return Err(e);
        },
    };
    if h.depth == 0 {
        let mut result: Vec<Extent> = Vec::new();
        let ghost target = walk_node(
            img@,
            data@,
            start as int,
            block_size as int,
            allowed as int,
        )->Ok_0;
        let mut i: usize = 0;
        while i < records.len()
            invariant
                i <= records@.len(),
                records@.len() == target.len(),
                walk_node(img@, data@, start as int, block_size as int, allowed as int) matches Ok(
                    s,
                ) && s == target,
                forall|j: int|
                    0 <= j < records@.len() ==> #[trigger] records@[j] == ExtentOrIdx::Extent(
                        target[j],
                    ),
                result@ =~= target.subrange(0, i as int),
            decreases records@.len() - i,
        {
            let e = match records[i] {
                ExtentOrIdx::Extent(e) => e,
                ExtentOrIdx::Idx(_) => {
                    proof {
                        assert(false);
                    }
                    return Err(ExtfsError::Decode);
                },
            };
            result.push(e);
            i = i + 1;
            proof {
                assert(result@ =~= target.subrange(0, i as int));
            }
        }
        proof {
            assert(result@ =~= target);
        }
        return Ok(result);
    }

    // internal node: visit each child, concatenating its leaves
    let child_allowed: u16 = h.depth - 1;
    let mut result: Vec<Extent> = Vec::new();
    let mut i: usize = 0;
    while i < records.len()
        invariant
            i <= records@.len(),
            records@.len() == eh_of(data@, start as int).entries,
            eh_parse(data@, start as int) == Ok::<ExtentHeader, ExtfsError>(
                eh_of(data@, start as int),
            ),
            eh_of(data@, start as int).depth == child_allowed + 1,
            child_allowed + 1 <= allowed,
            start + 12 + 12 * records@.len() <= data@.len(),
            forall|j: int|
                0 <= j < records@.len() ==> #[trigger] records@[j] == ExtentOrIdx::Idx(
                    idx_of(data@, start + 12 + 12 * j),
                ),
            walk_kids(
                img@,
                data@,
                start as int,
                i as int,
                block_size as int,
                child_allowed as int,
            ) == Ok::<Seq<Extent>, ExtfsError>(result@),
        decreases records@.len() - i,
    {
        let ix = match records[i] {
            ExtentOrIdx::Idx(ix) => ix,
            ExtentOrIdx::Extent(_) => {
                proof {
                    assert(false);
                }
                return Err(ExtfsError::Decode);
            },
        };
        let loc = ix.get_extent_loc();
        proof {
            vstd::arithmetic::mul::lemma_mul_upper_bound(
                loc as int,
                u64::MAX as int,
                block_size as int,
                u64::MAX as int,
            );
        }
        let child_pos: u128 = (loc as u128) * (block_size as u128);
        let ghost cs: int = idx_loc(ix) * (block_size as int);
        proof {
            assert(cs == child_pos);
            assert(records@[i as int] == ExtentOrIdx::Idx(idx_of(data@, start + 12 + 12 * i)));
        }
        let n_img = img.len();
        if child_pos > n_img as u128 {
            proof {
                assert(eh_parse(img@, cs) == Err::<ExtentHeader, ExtfsError>(ExtfsError::Decode));
                assert(walk_node(img@, img@, cs, block_size as int, child_allowed as int) == Err::<
                    Seq<Extent>,
                    ExtfsError,
                >(ExtfsError::Decode));
                assert(walk_kids(
                    img@,
                    data@,
                    start as int,
                    i + 1,
                    block_size as int,
                    child_allowed as int,
                ) == Err::<Seq<Extent>, ExtfsError>(ExtfsError::Decode));
                lemma_walk_kids_extend_err(
                    img@,
                    data@,
                    start as int,
                    i + 1,
                    records@.len() as int,
                    block_size as int,
                    child_allowed as int,
                );
            }
            return Err(ExtfsError::Decode);
        }
        let child = walk_data(img, img, child_pos as usize, block_size, child_allowed);
        match child {
            Err(e) => {
                proof {
                    assert(walk_node(img@, img@, cs, block_size as int, child_allowed as int)
                        == Err::<Seq<Extent>, ExtfsError>(e));
                    assert(walk_kids(
                        img@,
                        data@,
                        start as int,
                        i + 1,
                        block_size as int,
                        child_allowed as int,
                    ) == Err::<Seq<Extent>, ExtfsError>(e));
                    lemma_walk_kids_extend_err(
                        img@,
                        data@,
                        start as int,
                        i + 1,
                        records@.len() as int,
                        block_size as int,
                        child_allowed as int,
                    );
                }
                return Err(e);
            },
            Ok(mut sub) => {
                result.append(&mut sub);
            },
        }
        i = i + 1;
    }
    Ok(result)
}

impl Extent {
    /// Physical block number the extent points to.
    pub fn get_block_loc(&self) -> (r: u64)
        ensures
            r == ext_loc(*self),
    {
        compute_u64(self.start_lo, self.start_hi as u32)
    }
}

/// What reading raw bytes from an extent returns: up to `max` bytes from
/// byte `start` within the extent, clipped to the extent's span; a read
/// past the image is a decode error.
pub open spec fn ext_read(img: Seq<u8>, e: Extent, bs: int, start: int, max: int) -> Result<
    Seq<u8>,
    ExtfsError,
> {
    let take = imin(ext_bytes(e, bs) - start, max);
    let pos = ext_loc(e) * bs + start;
    if take <= 0 {
        Ok(Seq::<u8>::empty())
    } else if pos + take > img.len() {
        Err(ExtfsError::Decode)
    } else {
        Ok(img.subrange(pos, pos + take))
    }
}

impl Extent {
    /// Read up to `max` raw bytes from the extent, starting `start` bytes
    /// into it.
    pub fn read_bytes(&self, img: &Vec<u8>, block_size: u64, start: u64, max: u64) -> (r: Result<
        Vec<u8>,
        ExtfsError,
    >)
        requires
            start <= ext_bytes(*self, block_size as int),
        ensures
            ext_read(img@, *self, block_size as int, start as int, max as int) matches Ok(s) ==> r
                is Ok && r->Ok_0@ == s,
            ext_read(img@, *self, block_size as int, start as int, max as int) matches Err(e) ==> r
                == Err::<Vec<u8>, ExtfsError>(e),
    {
        proof {
            vstd::arithmetic::mul::lemma_mul_upper_bound(
                self.len as int,
                u16::MAX as int,
                block_size as int,
                u64::MAX as int,
            );
        }
        let eb: u128 = (self.len as u128) * (block_size as u128);
        let avail: u128 = eb - (start as u128);
        let take: u128 = if (max as u128) < avail {
            max as u128
        } else {
            avail
        };
        if take == 0 {
            let empty: Vec<u8> = Vec::new();
            proof {
                assert(empty@ =~= Seq::<u8>::empty());
            }
            return Ok(empty);
        }
        let loc = self.get_block_loc();
        proof {
            vstd::arithmetic::mul::lemma_mul_upper_bound(
                loc as int,
                0xFFFF_FFFF_FFFF,
                block_size as int,
                u64::MAX as int,
            );
        }
        let pos: u128 = (loc as u128) * (block_size as u128) + (start as u128);
        let n = img.len();
        if pos + take > n as u128 {
            return Err(ExtfsError::Decode);
        }
        let a: usize = pos as usize;
        let b: usize = (pos + take) as usize;
        let out = vstd::slice::slice_to_vec(vstd::slice::slice_subrange(img.as_slice(), a, b));
        Ok(out)
    }
}

/// First byte of the image an extent covers.
pub open spec fn ext_base(e: Extent, bs: int) -> int {
    ext_loc(e) * bs
}

/// End of the readable window of an extent: its span, clipped to the image.
pub open spec fn ext_wend(img: Seq<u8>, e: Extent, bs: int) -> int {
    imin(ext_base(e, bs) + ext_bytes(e, bs), img.len() as int)
}

/// The views of a sequence of entries.
pub open spec fn views_of(s: Seq<DirEntryEnum>) -> Seq<DirEntryView> {
    s.map_values(|e: DirEntryEnum| e@)
}

/// Facts one decode step guarantees: progress, staying inside the window,
/// and the record-length bound on non-tail entries.
pub proof fn lemma_parse_ent_wf(img: Seq<u8>, off: int, end: int, ft: bool)
    requires
        0 <= off,
        end <= img.len(),
    ensures
        parse_ent(img, off, end, ft) matches EntOut::Parsed(v, next) ==> {
            &&& off + 8 <= next <= end
            &&& (!v.is_tail ==> v.rec_len >= 8 + v.name_len && v.name.len() == v.name_len && next
                == off + v.rec_len)
            &&& (v.is_tail ==> v.rec_len == 12 && next == off + 12)
        },
{
    if parse_ent(img, off, end, ft) is Parsed {
        if off + 6 > end {
        } else {
            let ino = le32(img, off);
            let rl = le16(img, off + 4);
            if ino == 0 && rl == 12 {
            } else if ft {
                let nl = img[off + 6] as int;
                if off + 8 <= end && off + 8 + nl <= end && rl >= 8 + nl && off + rl <= end {
                    assert(img.subrange(off + 8, off + 8 + nl).len() == nl);
                }
            } else {
                let nl = le16(img, off + 6);
                if off + 8 <= end && off + 8 + nl <= end && rl >= 8 + nl && off + rl <= end {
                    assert(img.subrange(off + 8, off + 8 + nl).len() == nl);
                }
            }
        }
    }
}

/// The non-dot, non-tail entries decoded in order from absolute offset
/// `off` up to window end `wend`: a tail or the window end stops the scan,
/// and a malformed record fails it.
pub open spec fn ents_rec(img: Seq<u8>, off: int, wend: int, ft: bool) -> Option<Seq<DirEntryView>>
    decreases wend - off,
{
    match parse_ent(img, off, wend, ft) {
        EntOut::Eof => Some(Seq::empty()),
        EntOut::Bad => None,
        EntOut::Parsed(v, next) => {
            if v.is_tail {
                Some(Seq::empty())
            } else {
                match ents_rec(img, next, wend, ft) {
                    None => None,
                    Some(rest) => {
                        if v.is_dot() || v.is_dotdot() {
                            Some(rest)
                        } else {
                            Some(seq![v] + rest)
                        }
                    },
                }
            }
        },
    }
}

/// What one step of directory iteration within an extent yields, starting
/// `off` bytes into the extent: the next non-dot entry with the offset
/// after it, the end of the extent's scan, or a malformed-record failure.
pub open spec fn next_ent(img: Seq<u8>, e: Extent, bs: int, ft: bool, off: int) -> NextEnt
    decreases ext_bytes(e, bs) - off,
{
    if off >= ext_bytes(e, bs) {
        NextEnt::Stop
    } else {
        let base = ext_base(e, bs);
        match parse_ent(img, base + off, ext_wend(img, e, bs), ft) {
            EntOut::Eof => NextEnt::Stop,
            EntOut::Bad => NextEnt::Fail,
            EntOut::Parsed(v, nextabs) => {
                if v.is_tail {
                    NextEnt::Stop
                } else if v.is_dot() || v.is_dotdot() {
                    next_ent(img, e, bs, ft, nextabs - base)
                } else {
                    NextEnt::Out(v, nextabs - base)
                }
            },
        }
    }
}

/// Byte span of the extents before index `i` in the list.
pub open spec fn pre_bytes(exts: Seq<Extent>, bs: int, i: int) -> int
    decreases i,
{
    if i <= 0 {
        0
    } else {
        pre_bytes(exts, bs, i - 1) + ext_bytes(exts[i - 1], bs)
    }
}

/// Byte span of the extents from index `i` on.
pub open spec fn cov_from(exts: Seq<Extent>, bs: int, i: int) -> int
    decreases exts.len() - i,
{
    if i < 0 || i >= exts.len() {
        0
    } else {
        ext_bytes(exts[i], bs) + cov_from(exts, bs, i + 1)
    }
}

/// Total byte span an extent list covers.
pub open spec fn cov(exts: Seq<Extent>, bs: int) -> int {
    cov_from(exts, bs, 0)
}

/// Image position of byte `p` of the file laid out by `exts`, scanning
/// from extent `i`; junk below zero when `p` lies past the coverage.
pub open spec fn fpos_from(exts: Seq<Extent>, bs: int, i: int, p: int) -> int
    decreases exts.len() - i,
{
    if i < 0 || i >= exts.len() {
        -1
    } else if p < ext_bytes(exts[i], bs) {
        ext_loc(exts[i]) * bs + p
    } else {
        fpos_from(exts, bs, i + 1, p - ext_bytes(exts[i], bs))
    }
}

/// Image position of byte `p` of the file laid out by `exts`.
pub open spec fn fpos(exts: Seq<Extent>, bs: int, p: int) -> int {
    fpos_from(exts, bs, 0, p)
}

/// Every byte of the window `[from, from + cnt)` of the file lands inside
/// the image.
pub open spec fn reads_ok(img: Seq<u8>, exts: Seq<Extent>, bs: int, from: int, cnt: int) -> bool {
    forall|j: int| from <= j < from + cnt ==> 0 <= #[trigger] fpos(exts, bs, j) < img.len()
}

/// The bytes of the window `[from, from + cnt)` of the file.
pub open spec fn file_window(img: Seq<u8>, exts: Seq<Extent>, bs: int, from: int, cnt: int) -> Seq<
    u8,
> {
    Seq::new(cnt as nat, |j: int| img[fpos(exts, bs, from + j)])
}

/// Every extent spans a nonnegative number of bytes, so suffix coverage is
/// nonnegative.
pub proof fn lemma_cov_from_nonneg(exts: Seq<Extent>, bs: int, i: int)
    requires
        bs >= 0,
    ensures
        cov_from(exts, bs, i) >= 0,
    decreases exts.len() - i,
{
    if 0 <= i < exts.len() {
        vstd::arithmetic::mul::lemma_mul_nonnegative(exts[i].len as int, bs);
        lemma_cov_from_nonneg(exts, bs, i + 1);
    }
}

/// Coverage splits at any index into the prefix span and the suffix span.
pub proof fn lemma_cov_split(exts: Seq<Extent>, bs: int, i: int)
    requires
        0 <= i <= exts.len(),
    ensures
        cov(exts, bs) == pre_bytes(exts, bs, i) + cov_from(exts, bs, i),
    decreases i,
{
    if i > 0 {
        lemma_cov_split(exts, bs, i - 1);
    }
}

/// Positions within extent `i` sit `pre_bytes` past the start of the file.
pub proof fn lemma_fpos_prefix(exts: Seq<Extent>, bs: int, i: int, q: int)
    requires
        0 <= i <= exts.len(),
        0 <= q,
        bs >= 0,
    ensures
        fpos_from(exts, bs, 0, pre_bytes(exts, bs, i) + q) == fpos_from(exts, bs, i, q),
    decreases i,
{
    if i > 0 {
        vstd::arithmetic::mul::lemma_mul_nonnegative(exts[i - 1].len as int, bs);
        lemma_fpos_prefix(exts, bs, i - 1, ext_bytes(exts[i - 1], bs) + q);
    }
}

/// Outcome of one directory iteration step within an extent.
pub enum NextEnt {
    /// The scan of this extent is over: window end or a tail.
    Stop,
    /// A malformed record.
    Fail,
    /// An entry, and the in-extent offset where the next record begins.
    Out(DirEntryView, int),
}

impl Extent {
    /// Decode the whole list of non-dot entries held by this extent,
    /// stopping at a tail entry or at the end of the extent's window.
    pub fn read_entries(&self, img: &Vec<u8>, block_size: u64, feature_incompat_filetype: bool) -> (r:
        Result<Vec<DirEntryEnum>, ExtfsError>)
        ensures
            ents_rec(
                img@,
                ext_base(*self, block_size as int),
                ext_wend(img@, *self, block_size as int),
                feature_incompat_filetype,
            ) matches Some(s) ==> r is Ok && views_of(r->Ok_0@) == s,
            ents_rec(
                img@,
                ext_base(*self, block_size as int),
                ext_wend(img@, *self, block_size as int),
                feature_incompat_filetype,
            ) is None ==> r is Err && r->Err_0 is Other,
            r is Ok ==> forall|j: int|
                0 <= j < r->Ok_0@.len() ==> !(#[trigger] r->Ok_0@[j])@.is_tail
                    && !r->Ok_0@[j]@.is_dot() && !r->Ok_0@[j]@.is_dotdot() && r->Ok_0@[j]@.rec_len
                    >= 8 + r->Ok_0@[j]@.name_len,
    {
        let loc = self.get_block_loc();
        proof {
            vstd::arithmetic::mul::lemma_mul_upper_bound(
                loc as int,
                0xFFFF_FFFF_FFFF,
                block_size as int,
                u64::MAX as int,
            );
            vstd::arithmetic::mul::lemma_mul_upper_bound(
                self.len as int,
                u16::MAX as int,
                block_size as int,
                u64::MAX as int,
            );
        }
        let base128: u128 = (loc as u128) * (block_size as u128);
        let eb128: u128 = (self.len as u128) * (block_size as u128);
        let n = img.len();
        let wend128: u128 = if base128 + eb128 < n as u128 {
            base128 + eb128
        } else {
            n as u128
        };
        let ghost gbase = ext_base(*self, block_size as int);
        let ghost gwend = ext_wend(img@, *self, block_size as int);
        let ghost ft = feature_incompat_filetype;
        let mut entries: Vec<DirEntryEnum> = Vec::new();
        if base128 >= wend128 {
            proof {
                assert(parse_ent(img@, gbase, gwend, ft) is Eof);
            }
            return Ok(entries);
        }
        let wend: usize = wend128 as usize;
        let mut off: usize = base128 as usize;
        loop
            invariant
                ft == feature_incompat_filetype,
                gbase == ext_base(*self, block_size as int),
                gwend == ext_wend(img@, *self, block_size as int),
                wend == gwend,
                gbase <= off <= wend <= img@.len(),
                (ents_rec(img@, off as int, gwend, ft) matches Some(rest) ==> ents_rec(
                    img@,
                    gbase,
                    gwend,
                    ft,
                ) == Some(views_of(entries@) + rest)),
                (ents_rec(img@, off as int, gwend, ft) is None ==> ents_rec(img@, gbase, gwend, ft)
                    is None),
                forall|j: int|
                    0 <= j < entries@.len() ==> !(#[trigger] entries@[j])@.is_tail
                        && !entries@[j]@.is_dot() && !entries@[j]@.is_dotdot()
                        && entries@[j]@.rec_len >= 8 + entries@[j]@.name_len,
            decreases wend - off,
        {
            proof {
                lemma_parse_ent_wf(img@, off as int, gwend, ft);
            }
            match DirEntryEnum::from_reader(img, off, wend, feature_incompat_filetype) {
                Err(e) => {
                    match e {
                        ExtfsError::Decode => {
                            proof {
                                assert(ents_rec(img@, off as int, gwend, ft) == Some(Seq::<
                                    DirEntryView,
                                >::empty()));
                                assert(views_of(entries@) + Seq::<DirEntryView>::empty() =~= views_of(
                                    entries@,
                                ));
                            }
                            return Ok(entries);
                        },
                        _ => {
                            proof {
                                let po = parse_ent(img@, off as int, gwend, ft);
                                assert(!(po is Eof));
                                assert(!(po is Parsed));
                                assert(po is Bad);
                                assert(ents_rec(img@, off as int, gwend, ft) is None);
                            }
                            return Err(e);
                        },
                    }
                },
                Ok((ent, next)) => {
                    let ghost po = parse_ent(img@, off as int, gwend, ft);
                    proof {
                        assert(!(po is Eof));
                        assert(!(po is Bad));
                        assert(po matches EntOut::Parsed(v, nx) && ent@ == v && next == nx);
                    }
                    match ent.get_ino() {
                        None => {
                            proof {
                                assert(ents_rec(img@, off as int, gwend, ft) == Some(Seq::<
                                    DirEntryView,
                                >::empty()));
                                assert(views_of(entries@) + Seq::<DirEntryView>::empty() =~= views_of(
                                    entries@,
                                ));
                            }
                            return Ok(entries);
                        },
                        Some(_) => {},
                    }
                    if ent.is_dot() || ent.is_dotdot() {
                        off = next;
                    } else {
                        proof {
                            let v = ent@;
                            assert forall|rest: Seq<DirEntryView>|
                                ents_rec(img@, next as int, gwend, ft) == Some::<Seq<DirEntryView>>(
                                    rest,
                                ) implies views_of(entries@.push(ent)) + rest =~= views_of(entries@)
                                + (seq![v] + rest) by {
                                assert(views_of(entries@.push(ent)) =~= views_of(entries@).push(v));
                            }
                        }
                        entries.push(ent);
                        off = next;
                    }
                },
            }
        }
    }

    /// One directory iteration step: decode the next non-dot entry starting
    /// `offset` bytes into this extent. `Ok(None)` means this extent is
    /// exhausted (its window ended or a tail entry was found).
    pub fn read_entry(
        &self,
        img: &Vec<u8>,
        block_size: u64,
        feature_incompat_filetype: bool,
        offset: u64,
    ) -> (r: Result<Option<(DirEntryEnum, u64)>, ExtfsError>)
        ensures
            next_ent(img@, *self, block_size as int, feature_incompat_filetype, offset as int)
                is Stop ==> r == Ok::<Option<(DirEntryEnum, u64)>, ExtfsError>(None),
            next_ent(img@, *self, block_size as int, feature_incompat_filetype, offset as int)
                is Fail ==> r is Err && r->Err_0 is Other,
            (next_ent(img@, *self, block_size as int, feature_incompat_filetype, offset as int)
                matches NextEnt::Out(v, noff) ==> (r matches Ok(Some((e, o))) && e@ == v && o
                == noff)),
            (r matches Ok(Some((e, o))) ==> !e@.is_tail && !e@.is_dot() && !e@.is_dotdot()
                && e@.rec_len >= 8 + e@.name_len && o <= ext_bytes(
                *self,
                block_size as int,
            )),
    {
        let loc = self.get_block_loc();
        proof {
            vstd::arithmetic::mul::lemma_mul_upper_bound(
                loc as int,
                0xFFFF_FFFF_FFFF,
                block_size as int,
                u64::MAX as int,
            );
            vstd::arithmetic::mul::lemma_mul_upper_bound(
                self.len as int,
                u16::MAX as int,
                block_size as int,
                u64::MAX as int,
            );
        }
        let base128: u128 = (loc as u128) * (block_size as u128);
        let eb128: u128 = (self.len as u128) * (block_size as u128);
        let n = img.len();
        let wend128: u128 = if base128 + eb128 < n as u128 {
            base128 + eb128
        } else {
            n as u128
        };
        let ghost ft = feature_incompat_filetype;
        let ghost bs = block_size as int;
        let ghost goal = next_ent(img@, *self, bs, ft, offset as int);
        let mut off: u64 = offset;
        loop
            invariant
                next_ent(img@, *self, bs, ft, off as int) == goal,
                base128 == ext_base(*self, bs),
                eb128 == ext_bytes(*self, bs),
                wend128 == ext_wend(img@, *self, bs),
                wend128 <= img@.len(),
                eb128 <= 0x1_0000_0000_0000_0000_0000,
                base128 <= 0x1_0000_0000_0000_0000_0000_0000_0000,
                goal == next_ent(img@, *self, bs, ft, offset as int),
                n == img@.len(),
                bs == block_size,
                ft == feature_incompat_filetype,
            decreases eb128 - off,
        {
            if off as u128 >= eb128 {
                return Ok(None);
            }
            let off_abs128: u128 = base128 + off as u128;
            if off_abs128 + 6 > wend128 {
                proof {
                    assert(parse_ent(img@, base128 + off, wend128 as int, ft) is Eof);
                }
                return Ok(None);
            }
            let off_abs: usize = off_abs128 as usize;
            let wend: usize = wend128 as usize;
            proof {
                lemma_parse_ent_wf(img@, off_abs as int, wend as int, ft);
            }
            match DirEntryEnum::from_reader(img, off_abs, wend, feature_incompat_filetype) {
                Err(e) => {
                    match e {
                        ExtfsError::Decode => {
                            return Ok(None);
                        },
                        _ => {
                            return Err(e);
                        },
                    }
                },
                Ok((ent, nextabs)) => {
                    let noff: u64 = ((nextabs as u128 - base128) as u64);
                    match ent.get_ino() {
                        None => {
                            return Ok(None);
                        },
                        Some(_) => {},
                    }
                    if ent.is_dot() || ent.is_dotdot() {
                        off = noff;
                    } else {
                        return Ok(Some((ent, noff)));
                    }
                },
            }
        }
    }
}

} // verus!
