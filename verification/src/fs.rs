//! The filesystem facade: mount an image, resolve absolute paths against
//! its directories, and read files, links and metadata.

use vstd::prelude::*;

use crate::constants::{FEATURE_INCOMPAT_EXTENTS, INO_ROOT};
use crate::descriptor::{bgd_parse, BlockGroupDescriptor};
use crate::entry::DirEntryView;
use crate::errors::ExtfsError;
use crate::extent::{ents_rec, ext_base, ext_wend, views_of, Extent};
use crate::file::File;
use crate::inode::{
    bytes_read_spec, inode_parse, link_read_spec, spec_extents, Inode, InodeView,
};
use crate::metadata::Metadata;
use crate::read_dir::ReadDir;
use crate::superblock::{sb_parse, SuperBlock};
use crate::text::{lossy_utf8, lossy_string};
use vstd::string::StringSliceAdditionalSpecFns;

verus! {

/// The group descriptor table decoded for the first `n` groups. The table
/// begins at byte 2048: the byte after the superblock record. Records are
/// 64 bytes each on 64-bit images and 32 otherwise.
pub open spec fn bgds_parse(img: Seq<u8>, n: int, is_64bit: bool) -> Result<
    Seq<BlockGroupDescriptor>,
    ExtfsError,
>
    decreases n,
{
    if n <= 0 {
        Ok(Seq::empty())
    } else {
        match bgds_parse(img, n - 1, is_64bit) {
            Err(e) => Err(e),
            Ok(pre) => {
                let size: int = if is_64bit {
                    64
                } else {
                    32
                };
                match bgd_parse(img, 2048 + (n - 1) * size, is_64bit) {
                    Err(e) => Err(e),
                    Ok(d) => Ok(pre.push(d)),
                }
            },
        }
    }
}

/// A failing prefix of the descriptor table decides the whole parse.
proof fn lemma_bgds_extend_err(img: Seq<u8>, n: int, n2: int, is_64bit: bool)
    requires
        bgds_parse(img, n, is_64bit) is Err,
        n <= n2,
    ensures
        bgds_parse(img, n2, is_64bit) == bgds_parse(img, n, is_64bit),
    decreases n2 - n,
{
    if n2 > n {
        lemma_bgds_extend_err(img, n, n2 - 1, is_64bit);
    }
}

/// What mounting an image returns: the validated superblock and the
/// descriptor table, or the first failure. An image without the extents
/// feature is unsupported.
pub open spec fn fs_parse(img: Seq<u8>) -> Result<
    (SuperBlock, Seq<BlockGroupDescriptor>),
    ExtfsError,
> {
    match sb_parse(img) {
        Err(e) => Err(e),
        Ok(sb) => {
            if sb.feature_incompat & FEATURE_INCOMPAT_EXTENTS == 0 {
                Err(ExtfsError::Unsupported)
            } else {
                let n = sb.blocks_count_lo / (sb.blocks_per_group as u32) + 1;
                match bgds_parse(img, n as int, sb.feature_incompat & 0x80 != 0) {
                    Err(e) => Err(e),
                    Ok(ds) => Ok((sb, ds)),
                }
            }
        },
    }
}

/// Where an inode record lives and what it holds: group and in-group index
/// from the inode number, a record position from the group's inode table.
#[verifier::opaque]
pub open spec fn inode_fetch(
    img: Seq<u8>,
    sb: SuperBlock,
    ds: Seq<BlockGroupDescriptor>,
    ino: int,
) -> Result<InodeView, ExtfsError> {
    if ino < 1 {
        Err(ExtfsError::Decode)
    } else {
        let g = (ino - 1) / (sb.inodes_per_group as int);
        if g >= ds.len() {
            Err(ExtfsError::BlockGroupDescriptorNotFound(g as u64))
        } else {
            let index = (ino - 1) % (sb.inodes_per_group as int);
            let table = crate::codec::spec_u64(
                ds[g].descriptor32.inode_table_lo,
                ds[g].inode_table_hi,
            );
            inode_parse(img, table * sb.spec_block_size() + index * sb.inode_size)
        }
    }
}

/// One step of a path: the current-dir marker, the parent-dir marker, or a
/// name to look up.
pub enum PathComp {
    Cur,
    Parent,
    Name(Seq<u8>),
}

/// How one component's bytes are interpreted.
pub open spec fn comp_of(b: Seq<u8>) -> PathComp {
    if b == seq![0x2Eu8] {
        PathComp::Cur
    } else if b == seq![0x2Eu8, 0x2Eu8] {
        PathComp::Parent
    } else {
        PathComp::Name(b)
    }
}

/// The first separator position at or after `i`, or the end of the path.
pub open spec fn next_sep(pb: Seq<u8>, i: int) -> int
    decreases pb.len() - i,
{
    if i >= pb.len() {
        pb.len() as int
    } else if pb[i] == 0x2F {
        i
    } else {
        next_sep(pb, i + 1)
    }
}

pub proof fn lemma_next_sep_bound(pb: Seq<u8>, i: int)
    requires
        i <= pb.len(),
    ensures
        i <= next_sep(pb, i) <= pb.len(),
    decreases pb.len() - i,
{
    if i < pb.len() && pb[i] != 0x2F {
        lemma_next_sep_bound(pb, i + 1);
    }
}

/// The path's components from byte `i` on: maximal nonempty runs between
/// `/` separators.
pub open spec fn comps_from(pb: Seq<u8>, i: int) -> Seq<PathComp>
    decreases pb.len() - i,
    via comps_from_dec
{
    if i >= pb.len() {
        Seq::empty()
    } else if pb[i] == 0x2F {
        comps_from(pb, i + 1)
    } else {
        let j = next_sep(pb, i);
        seq![comp_of(pb.subrange(i, j))] + comps_from(pb, j)
    }
}

#[via_fn]
proof fn comps_from_dec(pb: Seq<u8>, i: int) {
    if i < pb.len() && pb[i] != 0x2F {
        lemma_next_sep_bound(pb, i + 1);
    }
}

/// Outcome of one name lookup in a directory.
pub enum LookRes {
    /// The inode number of the first entry whose name matches.
    Hit(u32),
    /// No entry matches.
    Miss,
    /// A malformed directory record.
    BadEntry,
    /// The extent walk itself failed.
    Deeper(ExtfsError),
}

/// The inode number of the first entry at or after `t` whose name equals
/// `nm`.
pub open spec fn find_from(ents: Seq<DirEntryView>, nm: Seq<u8>, t: int) -> Option<u32>
    decreases ents.len() - t,
{
    if t < 0 || t >= ents.len() {
        None
    } else if ents[t].name == nm {
        Some(ents[t].inode)
    } else {
        find_from(ents, nm, t + 1)
    }
}

/// Look `nm` up across the directory's extents from index `i` on, scanning
/// each extent's entries in on-disk order.
pub open spec fn lookup_exts(
    img: Seq<u8>,
    exts: Seq<Extent>,
    bs: int,
    ft: bool,
    nm: Seq<u8>,
    i: int,
) -> LookRes
    decreases exts.len() - i,
{
    if i < 0 || i >= exts.len() {
        LookRes::Miss
    } else {
        match ents_rec(img, ext_base(exts[i], bs), ext_wend(img, exts[i], bs), ft) {
            None => LookRes::BadEntry,
            Some(h) => match find_from(h, nm, 0) {
                Some(ino) => LookRes::Hit(ino),
                None => lookup_exts(img, exts, bs, ft, nm, i + 1),
            },
        }
    }
}

/// Look a name up in a directory inode: walk its extent tree, then scan.
#[verifier::opaque]
pub open spec fn lookup_spec(
    img: Seq<u8>,
    dir: InodeView,
    bs: int,
    ft: bool,
    nm: Seq<u8>,
) -> LookRes {
    match spec_extents(dir, img, bs) {
        Err(e) => LookRes::Deeper(e),
        Ok(exts) => lookup_exts(img, exts, bs, ft, nm, 0),
    }
}

/// Where resolution ends.
pub enum Resolved {
    /// The inode the path names.
    Found(InodeView),
    /// The path is not absolute.
    NotAbsolute,
    /// `..` would escape the root.
    ParentEscape,
    /// A name component was looked up in a non-directory; carries the bytes
    /// of the path resolved so far joined with that component.
    NotDir(Seq<u8>),
    /// A name component matched no entry; carries the bytes of the path
    /// resolved so far joined with that component.
    Miss(Seq<u8>),
    /// A malformed directory record.
    BadEntry,
    /// A failure below the resolver: walking, fetching, decoding.
    Deeper(ExtfsError),
}

/// Component names joined as an absolute path's bytes: `/n1/n2/...`, empty
/// for no names.
pub open spec fn joined(names: Seq<Seq<u8>>) -> Seq<u8>
    decreases names.len(),
{
    if names.len() == 0 {
        Seq::empty()
    } else {
        joined(names.drop_last()) + seq![0x2Fu8] + names.last()
    }
}

/// Walk the components from index `k` against a stack of inodes whose top
/// is the current directory; `names` holds the component names resolved so
/// far, in step with the stack above the root, and feeds the path that
/// lookup errors carry.
pub open spec fn resolve_at(
    img: Seq<u8>,
    sb: SuperBlock,
    ds: Seq<BlockGroupDescriptor>,
    bs: int,
    ft: bool,
    comps: Seq<PathComp>,
    k: int,
    stack: Seq<InodeView>,
    names: Seq<Seq<u8>>,
) -> Resolved
    decreases comps.len() - k,
{
    if k >= comps.len() {
        Resolved::Found(stack.last())
    } else {
        match comps[k] {
            PathComp::Cur => resolve_at(img, sb, ds, bs, ft, comps, k + 1, stack, names),
            PathComp::Parent => {
                if stack.len() <= 1 {
                    Resolved::ParentEscape
                } else {
                    resolve_at(
                        img,
                        sb,
                        ds,
                        bs,
                        ft,
                        comps,
                        k + 1,
                        stack.drop_last(),
                        names.drop_last(),
                    )
                }
            },
            PathComp::Name(nm) => {
                let top = stack.last();
                if !top.is_dir() {
                    Resolved::NotDir(joined(names.push(nm)))
                } else {
                    match lookup_spec(img, top, bs, ft, nm) {
                        LookRes::Deeper(e) => Resolved::Deeper(e),
                        LookRes::BadEntry => Resolved::BadEntry,
                        LookRes::Miss => Resolved::Miss(joined(names.push(nm))),
                        LookRes::Hit(ino) => match inode_fetch(img, sb, ds, ino as int) {
                            Err(e) => Resolved::Deeper(e),
                            Ok(child) => resolve_at(
                                img,
                                sb,
                                ds,
                                bs,
                                ft,
                                comps,
                                k + 1,
                                stack.push(child),
                                names.push(nm),
                            ),
                        },
                    }
                }
            },
        }
    }
}

/// Resolve a path's bytes: reject relative paths, start from the root
/// inode, and walk the components.
pub open spec fn resolve_path(
    img: Seq<u8>,
    sb: SuperBlock,
    ds: Seq<BlockGroupDescriptor>,
    bs: int,
    ft: bool,
    pb: Seq<u8>,
) -> Resolved {
    if pb.len() == 0 || pb[0] != 0x2F {
        Resolved::NotAbsolute
    } else {
        match inode_fetch(img, sb, ds, INO_ROOT as int) {
            Err(e) => Resolved::Deeper(e),
            Ok(root) => resolve_at(
                img,
                sb,
                ds,
                bs,
                ft,
                comps_from(pb, 0),
                0,
                seq![root],
                Seq::empty(),
            ),
        }
    }
}

/// Resolution reads the components from `k` on only.
pub proof fn lemma_resolve_shift(
    img: Seq<u8>,
    sb: SuperBlock,
    ds: Seq<BlockGroupDescriptor>,
    bs: int,
    ft: bool,
    c1: Seq<PathComp>,
    k1: int,
    c2: Seq<PathComp>,
    k2: int,
    stack: Seq<InodeView>,
    names: Seq<Seq<u8>>,
)
    requires
        0 <= k1 <= c1.len(),
        0 <= k2 <= c2.len(),
        c1.subrange(k1, c1.len() as int) == c2.subrange(k2, c2.len() as int),
    ensures
        resolve_at(img, sb, ds, bs, ft, c1, k1, stack, names) == resolve_at(
            img,
            sb,
            ds,
            bs,
            ft,
            c2,
            k2,
            stack,
            names,
        ),
    decreases c1.len() - k1,
{
    let s1 = c1.subrange(k1, c1.len() as int);
    let s2 = c2.subrange(k2, c2.len() as int);
    if k1 < c1.len() {
        assert(s1.len() == c1.len() - k1);
        assert(s2.len() == c2.len() - k2);
        assert(k2 < c2.len());
        assert(c1[k1] == s1[0]);
        assert(c2[k2] == s2[0]);
        assert forall|u: int| 0 <= u < c1.len() - k1 - 1 implies #[trigger] (c1.subrange(
            k1 + 1,
            c1.len() as int,
        )[u]) == c2.subrange(k2 + 1, c2.len() as int)[u] by {
            assert(s1[u + 1] == c1[k1 + 1 + u]);
            assert(s2[u + 1] == c2[k2 + 1 + u]);
        }
        assert(c1.subrange(k1 + 1, c1.len() as int) =~= c2.subrange(k2 + 1, c2.len() as int));
        match c1[k1] {
            PathComp::Cur => {
                lemma_resolve_shift(img, sb, ds, bs, ft, c1, k1 + 1, c2, k2 + 1, stack, names);
            },
            PathComp::Parent => {
                if stack.len() > 1 {
                    lemma_resolve_shift(
                        img,
                        sb,
                        ds,
                        bs,
                        ft,
                        c1,
                        k1 + 1,
                        c2,
                        k2 + 1,
                        stack.drop_last(),
                        names.drop_last(),
                    );
                }
            },
            PathComp::Name(nm) => {
                let top = stack.last();
                if top.is_dir() {
                    match lookup_spec(img, top, bs, ft, nm) {
                        LookRes::Hit(ino) => {
                            match inode_fetch(img, sb, ds, ino as int) {
                                Ok(child) => {
                                    lemma_resolve_shift(
                                        img,
                                        sb,
                                        ds,
                                        bs,
                                        ft,
                                        c1,
                                        k1 + 1,
                                        c2,
                                        k2 + 1,
                                        stack.push(child),
                                        names.push(nm),
                                    );
                                },
                                Err(_) => {},
                            }
                        },
                        _ => {},
                    }
                }
            },
        }
    } else {
        assert(s1.len() == 0);
        assert(k2 == c2.len());
    }
}

/// Law: a `.` component changes nothing. Resolving a path whose component
/// list is `a + [.] + b` ends exactly where resolving `a + b` ends, from
/// any starting stack: `/a/./b` names what `/a/b` names.
pub proof fn lemma_resolve_skip_cur(
    img: Seq<u8>,
    sb: SuperBlock,
    ds: Seq<BlockGroupDescriptor>,
    bs: int,
    ft: bool,
    a: Seq<PathComp>,
    b: Seq<PathComp>,
    stack: Seq<InodeView>,
    names: Seq<Seq<u8>>,
)
    ensures
        resolve_at(img, sb, ds, bs, ft, a + seq![PathComp::Cur] + b, 0, stack, names)
            == resolve_at(img, sb, ds, bs, ft, a + b, 0, stack, names),
    decreases a.len(),
{
    let c1 = a + seq![PathComp::Cur] + b;
    let c2 = a + b;
    if a.len() == 0 {
        assert(c1[0] == PathComp::Cur);
        assert(c1.subrange(1, c1.len() as int) =~= c2.subrange(0, c2.len() as int));
        lemma_resolve_shift(img, sb, ds, bs, ft, c1, 1, c2, 0, stack, names);
    } else {
        let a1 = a.subrange(1, a.len() as int);
        let d1 = a1 + seq![PathComp::Cur] + b;
        let d2 = a1 + b;
        assert(c1[0] == a[0]);
        assert(c2[0] == a[0]);
        assert(c1.subrange(1, c1.len() as int) =~= d1.subrange(0, d1.len() as int));
        assert(c2.subrange(1, c2.len() as int) =~= d2.subrange(0, d2.len() as int));
        match a[0] {
            PathComp::Cur => {
                lemma_resolve_shift(img, sb, ds, bs, ft, c1, 1, d1, 0, stack, names);
                lemma_resolve_shift(img, sb, ds, bs, ft, c2, 1, d2, 0, stack, names);
                lemma_resolve_skip_cur(img, sb, ds, bs, ft, a1, b, stack, names);
            },
            PathComp::Parent => {
                if stack.len() > 1 {
                    let sp = stack.drop_last();
                    let np = names.drop_last();
                    lemma_resolve_shift(img, sb, ds, bs, ft, c1, 1, d1, 0, sp, np);
                    lemma_resolve_shift(img, sb, ds, bs, ft, c2, 1, d2, 0, sp, np);
                    lemma_resolve_skip_cur(img, sb, ds, bs, ft, a1, b, sp, np);
                }
            },
            PathComp::Name(nm) => {
                let top = stack.last();
                if top.is_dir() {
                    match lookup_spec(img, top, bs, ft, nm) {
                        LookRes::Hit(ino) => {
                            match inode_fetch(img, sb, ds, ino as int) {
                                Ok(child) => {
                                    let sp = stack.push(child);
                                    let np = names.push(nm);
                                    lemma_resolve_shift(img, sb, ds, bs, ft, c1, 1, d1, 0, sp, np);
                                    lemma_resolve_shift(img, sb, ds, bs, ft, c2, 1, d2, 0, sp, np);
                                    lemma_resolve_skip_cur(img, sb, ds, bs, ft, a1, b, sp, np);
                                },
                                Err(_) => {},
                            }
                        },
                        _ => {},
                    }
                }
            },
        }
    }
}

/// Law: a name followed by `..` changes nothing, wherever the name itself
/// resolves. If resolving the components `a + [x]` finds an inode, then
/// resolving `a + [x, ..] + b` ends exactly where resolving `a + b` ends:
/// `/a/x/../b` names what `/a/b` names whenever `/a/x` exists.
pub proof fn lemma_resolve_name_parent(
    img: Seq<u8>,
    sb: SuperBlock,
    ds: Seq<BlockGroupDescriptor>,
    bs: int,
    ft: bool,
    a: Seq<PathComp>,
    x: Seq<u8>,
    b: Seq<PathComp>,
    stack: Seq<InodeView>,
    names: Seq<Seq<u8>>,
)
    requires
        stack.len() >= 1,
        resolve_at(img, sb, ds, bs, ft, a + seq![PathComp::Name(x)], 0, stack, names) is Found,
    ensures
        resolve_at(
            img,
            sb,
            ds,
            bs,
            ft,
            a + seq![PathComp::Name(x), PathComp::Parent] + b,
            0,
            stack,
            names,
        ) == resolve_at(img, sb, ds, bs, ft, a + b, 0, stack, names),
    decreases a.len(),
{
    let g = a + seq![PathComp::Name(x)];
    let c1 = a + seq![PathComp::Name(x), PathComp::Parent] + b;
    let c2 = a + b;
    if a.len() == 0 {
        assert(g[0] == PathComp::Name(x));
        assert(c1[0] == PathComp::Name(x));
        assert(c1[1] == PathComp::Parent);
        let top = stack.last();
        if !top.is_dir() {
            assert(resolve_at(img, sb, ds, bs, ft, g, 0, stack, names) == Resolved::NotDir(
                joined(names.push(x)),
            ));
            assert(false);
        }
        match lookup_spec(img, top, bs, ft, x) {
            LookRes::Hit(ino) => {
                match inode_fetch(img, sb, ds, ino as int) {
                    Ok(child) => {
                        let sp = stack.push(child);
                        let np = names.push(x);
                        assert(sp.len() == stack.len() + 1);
                        assert(sp.drop_last() =~= stack);
                        assert(np.drop_last() =~= names);
                        assert(c1.subrange(2, c1.len() as int) =~= c2.subrange(
                            0,
                            c2.len() as int,
                        ));
                        lemma_resolve_shift(img, sb, ds, bs, ft, c1, 2, c2, 0, stack, names);
                        assert(resolve_at(img, sb, ds, bs, ft, c1, 1, sp, np) == resolve_at(
                            img,
                            sb,
                            ds,
                            bs,
                            ft,
                            c1,
                            2,
                            stack,
                            names,
                        ));
                    },
                    Err(e) => {
                        assert(resolve_at(img, sb, ds, bs, ft, g, 0, stack, names)
                            == Resolved::Deeper(e));
                        assert(false);
                    },
                }
            },
            LookRes::Miss => {
                assert(resolve_at(img, sb, ds, bs, ft, g, 0, stack, names) == Resolved::Miss(
                    joined(names.push(x)),
                ));
                assert(false);
            },
            LookRes::BadEntry => {
                assert(resolve_at(img, sb, ds, bs, ft, g, 0, stack, names)
                    == Resolved::BadEntry);
                assert(false);
            },
            LookRes::Deeper(e) => {
                assert(resolve_at(img, sb, ds, bs, ft, g, 0, stack, names) == Resolved::Deeper(
                    e,
                ));
                assert(false);
            },
        }
    } else {
        let a1 = a.subrange(1, a.len() as int);
        let g1 = a1 + seq![PathComp::Name(x)];
        let d1 = a1 + seq![PathComp::Name(x), PathComp::Parent] + b;
        let d2 = a1 + b;
        assert(g[0] == a[0]);
        assert(c1[0] == a[0]);
        assert(c2[0] == a[0]);
        assert(g.subrange(1, g.len() as int) =~= g1.subrange(0, g1.len() as int));
        assert(c1.subrange(1, c1.len() as int) =~= d1.subrange(0, d1.len() as int));
        assert(c2.subrange(1, c2.len() as int) =~= d2.subrange(0, d2.len() as int));
        match a[0] {
            PathComp::Cur => {
                lemma_resolve_shift(img, sb, ds, bs, ft, g, 1, g1, 0, stack, names);
                lemma_resolve_shift(img, sb, ds, bs, ft, c1, 1, d1, 0, stack, names);
                lemma_resolve_shift(img, sb, ds, bs, ft, c2, 1, d2, 0, stack, names);
                lemma_resolve_name_parent(img, sb, ds, bs, ft, a1, x, b, stack, names);
            },
            PathComp::Parent => {
                if stack.len() <= 1 {
                    assert(resolve_at(img, sb, ds, bs, ft, g, 0, stack, names)
                        == Resolved::ParentEscape);
                    assert(false);
                }
                let sp = stack.drop_last();
                let np = names.drop_last();
                lemma_resolve_shift(img, sb, ds, bs, ft, g, 1, g1, 0, sp, np);
                lemma_resolve_shift(img, sb, ds, bs, ft, c1, 1, d1, 0, sp, np);
                lemma_resolve_shift(img, sb, ds, bs, ft, c2, 1, d2, 0, sp, np);
                lemma_resolve_name_parent(img, sb, ds, bs, ft, a1, x, b, sp, np);
            },
            PathComp::Name(nm) => {
                let top = stack.last();
                if !top.is_dir() {
                    assert(resolve_at(img, sb, ds, bs, ft, g, 0, stack, names)
                        == Resolved::NotDir(joined(names.push(nm))));
                    assert(false);
                }
                match lookup_spec(img, top, bs, ft, nm) {
                    LookRes::Hit(ino) => {
                        match inode_fetch(img, sb, ds, ino as int) {
                            Ok(child) => {
                                let sp = stack.push(child);
                                let np = names.push(nm);
                                lemma_resolve_shift(img, sb, ds, bs, ft, g, 1, g1, 0, sp, np);
                                lemma_resolve_shift(img, sb, ds, bs, ft, c1, 1, d1, 0, sp, np);
                                lemma_resolve_shift(img, sb, ds, bs, ft, c2, 1, d2, 0, sp, np);
                                lemma_resolve_name_parent(img, sb, ds, bs, ft, a1, x, b, sp, np);
                            },
                            Err(e) => {
                                assert(resolve_at(img, sb, ds, bs, ft, g, 0, stack, names)
                                    == Resolved::Deeper(e));
                                assert(false);
                            },
                        }
                    },
                    LookRes::Miss => {
                        assert(resolve_at(img, sb, ds, bs, ft, g, 0, stack, names)
                            == Resolved::Miss(joined(names.push(nm))));
                        assert(false);
                    },
                    LookRes::BadEntry => {
                        assert(resolve_at(img, sb, ds, bs, ft, g, 0, stack, names)
                            == Resolved::BadEntry);
                        assert(false);
                    },
                    LookRes::Deeper(e) => {
                        assert(resolve_at(img, sb, ds, bs, ft, g, 0, stack, names)
                            == Resolved::Deeper(e));
                        assert(false);
                    },
                }
            },
        }
    }
}

/// Which error value each failed resolution yields; path-carrying variants
/// hold the path the call was given.
pub open spec fn resolve_err_matches(res: Resolved, err: ExtfsError, path_chars: Seq<char>) -> bool {
    match res {
        Resolved::NotAbsolute => err matches ExtfsError::RequireAbsolutePath(p) && p@ == path_chars,
        Resolved::ParentEscape => err matches ExtfsError::UnexpectedParentDir(p) && p@
            == path_chars,
        Resolved::NotDir(pref) => err matches ExtfsError::IsNotDirectory(p) && p@ == lossy_utf8(
            pref,
        ),
        Resolved::Miss(pref) => err matches ExtfsError::NoSuchFileOrDirectory(p) && p@
            == lossy_utf8(pref),
        Resolved::BadEntry => err is Other,
        Resolved::Deeper(e) => err == e,
        Resolved::Found(_) => false,
    }
}

/// The views of a stack of inodes.
pub open spec fn inode_views(s: Seq<Inode>) -> Seq<InodeView> {
    s.map_values(|x: Inode| x@)
}

/// The component names held as byte ranges of the path.
pub open spec fn range_names(pb: Seq<u8>, rs: Seq<(usize, usize)>) -> Seq<Seq<u8>> {
    rs.map_values(|r: (usize, usize)| pb.subrange(r.0 as int, r.1 as int))
}

/// Build the path resolved so far joined with the failing component, the
/// way lookup errors report it: `/n1/n2/failing`.
fn build_prefix(pb: &Vec<u8>, names: &Vec<(usize, usize)>, start: usize, end: usize) -> (r: Vec<
    u8,
>)
    requires
        start <= end <= pb@.len(),
        forall|k: int| 0 <= k < names@.len() ==> (#[trigger] names@[k]).0 <= names@[k].1
            <= pb@.len(),
    ensures
        r@ == joined(range_names(pb@, names@).push(pb@.subrange(start as int, end as int))),
{
    let ghost all = range_names(pb@, names@);
    let mut buf: Vec<u8> = Vec::new();
    let mut k: usize = 0;
    proof {
        assert(buf@ =~= joined(all.subrange(0, 0)));
    }
    while k < names.len()
        invariant
            start <= end <= pb@.len(),
            forall|u: int| 0 <= u < names@.len() ==> (#[trigger] names@[u]).0 <= names@[u].1
                <= pb@.len(),
            all == range_names(pb@, names@),
            k <= names@.len(),
            buf@ == joined(all.subrange(0, k as int)),
        decreases names@.len() - k,
    {
        buf.push(0x2F);
        let (s, e) = names[k];
        let mut part = vstd::slice::slice_to_vec(
            vstd::slice::slice_subrange(pb.as_slice(), s, e),
        );
        buf.append(&mut part);
        proof {
            assert(all[k as int] == pb@.subrange(
                names@[k as int].0 as int,
                names@[k as int].1 as int,
            ));
            assert(all.subrange(0, k + 1).drop_last() =~= all.subrange(0, k as int));
            assert(all.subrange(0, k + 1).last() == all[k as int]);
            assert(buf@ =~= joined(all.subrange(0, k + 1)));
        }
        k = k + 1;
    }
    buf.push(0x2F);
    let mut last = vstd::slice::slice_to_vec(
        vstd::slice::slice_subrange(pb.as_slice(), start, end),
    );
    buf.append(&mut last);
    proof {
        let full = all.push(pb@.subrange(start as int, end as int));
        assert(all.subrange(0, names@.len() as int) =~= all);
        assert(full.drop_last() =~= all);
        assert(buf@ =~= joined(full));
    }
    buf
}

/// Whether the path's bytes `[start, end)` equal the name's bytes.
fn range_matches(pb: &Vec<u8>, start: usize, end: usize, name: &Vec<u8>) -> (r: bool)
    requires
        start <= end <= pb@.len(),
    ensures
        r == (pb@.subrange(start as int, end as int) == name@),
{
    let ghost sub = pb@.subrange(start as int, end as int);
    if end - start != name.len() {
        proof {
            assert(sub.len() == end - start);
        }
        return false;
    }
    let mut t: usize = 0;
    while t < name.len()
        invariant
            sub == pb@.subrange(start as int, end as int),
            start <= end <= pb@.len(),
            end - start == name@.len(),
            t <= name@.len(),
            forall|u: int| 0 <= u < t ==> pb@[start + u] == name@[u],
        decreases name@.len() - t,
    {
        if pb[start + t] != name[t] {
            proof {
                assert(sub[t as int] == pb@[start + t]);
            }
            return false;
        }
        t = t + 1;
    }
    proof {
        assert(sub =~= name@);
    }
    true
}

/// The read-only filesystem over an in-memory ext4 image: the byte source,
/// the superblock and the group descriptor table.
#[derive(Debug)]
pub struct FileSystem {
    pub super_block: SuperBlock,
    pub block_group_descriptors: Vec<BlockGroupDescriptor>,
    pub image: Vec<u8>,
}

impl FileSystem {
    /// A mounted filesystem: the superblock validated, the state decoded
    /// from the image it holds.
    pub open spec fn wf(self) -> bool {
        &&& self.super_block.wf()
        &&& fs_parse(self.image@) == Ok::<(SuperBlock, Seq<BlockGroupDescriptor>), ExtfsError>(
            (self.super_block, self.block_group_descriptors@),
        )
    }

    /// Mount: decode and validate the superblock, require the extents
    /// feature, and decode the group descriptor table.
    pub fn from_reader(reader: Vec<u8>) -> (r: Result<FileSystem, ExtfsError>)
        ensures
            fs_parse(reader@) matches Ok(p) ==> r is Ok && r->Ok_0.super_block == p.0
                && r->Ok_0.block_group_descriptors@ == p.1 && r->Ok_0.image@ == reader@
                && r->Ok_0.wf(),
            fs_parse(reader@) matches Err(e) ==> r == Err::<FileSystem, ExtfsError>(e),
    {
        let sb = match SuperBlock::from_reader(&reader) {
            Ok(s) => s,
            Err(e) => {
                return Err(e);
            },
        };
        if !sb.feature_incompat_extents() {
            return Err(ExtfsError::Unsupported);
        }
        let is_64bit = sb.feature_incompat_64bit();
        let group_count = sb.get_block_group_count();
        let desc_size: u64 = if is_64bit {
            64
        } else {
            32
        };
        let n = reader.len();
        let mut block_group_descriptors: Vec<BlockGroupDescriptor> = Vec::new();
        let mut i: u32 = 0;
        while i < group_count
            invariant
                i <= group_count,
                sb_parse(reader@) == Ok::<SuperBlock, ExtfsError>(sb),
                sb.wf(),
                sb.feature_incompat & FEATURE_INCOMPAT_EXTENTS != 0,
                is_64bit == (sb.feature_incompat & 0x80 != 0),
                desc_size == if is_64bit { 64int } else { 32int },
                group_count == sb.blocks_count_lo / (sb.blocks_per_group as u32) + 1,
                n == reader@.len(),
                bgds_parse(reader@, i as int, is_64bit) == Ok::<Seq<BlockGroupDescriptor>, ExtfsError>(
                    block_group_descriptors@,
                ),
            decreases group_count - i,
        {
            let off64: u64 = 2048 + (i as u64) * desc_size;
            if off64 > n as u64 {
                proof {
                    lemma_bgds_extend_err(reader@, i + 1, group_count as int, is_64bit);
                }
                return Err(ExtfsError::Decode);
            }
            match BlockGroupDescriptor::from_reader(&reader, off64 as usize, is_64bit) {
                Ok(d) => {
                    block_group_descriptors.push(d);
                },
                Err(e) => {
                    proof {
                        lemma_bgds_extend_err(reader@, i + 1, group_count as int, is_64bit);
                    }
                    return Err(e);
                },
            }
            i = i + 1;
        }
        Ok(FileSystem { super_block: sb, block_group_descriptors, image: reader })
    }

    /// Fetch an inode record by number (1-based; the root is number 2).
    fn get_inode(&self, ino: u64) -> (r: Result<Inode, ExtfsError>)
        requires
            self.super_block.wf(),
        ensures
            inode_fetch(self.image@, self.super_block, self.block_group_descriptors@, ino as int)
                matches Ok(v) ==> r is Ok && r->Ok_0@ == v && v.wf(),
            inode_fetch(self.image@, self.super_block, self.block_group_descriptors@, ino as int)
                matches Err(e) ==> r == Err::<Inode, ExtfsError>(e),
    {
        reveal(inode_fetch);
        if ino == 0 {
            return Err(ExtfsError::Decode);
        }
        let ipg = self.super_block.inodes_per_group as u64;
        let bgd_num = (ino - 1) / ipg;
        if bgd_num >= self.block_group_descriptors.len() as u64 {
            return Err(ExtfsError::BlockGroupDescriptorNotFound(bgd_num));
        }
        let bgd = &self.block_group_descriptors[bgd_num as usize];
        let inode_table_index = (ino - 1) % ipg;
        let block_size = self.super_block.get_block_size();
        let table = bgd.get_inode_table_loc();
        proof {
            vstd::arithmetic::mul::lemma_mul_upper_bound(
                table as int,
                u64::MAX as int,
                block_size as int,
                0x8000_0000_0000_0000,
            );
            vstd::arithmetic::mul::lemma_mul_upper_bound(
                inode_table_index as int,
                u32::MAX as int,
                self.super_block.inode_size as int,
                u16::MAX as int,
            );
        }
        let pos128: u128 = (table as u128) * (block_size as u128) + (inode_table_index as u128) * (
        self.super_block.inode_size as u128);
        let n = self.image.len();
        if pos128 > n as u128 || (n as u128) - pos128 < 160 {
            return Err(ExtfsError::Decode);
        }
        Inode::from_reader(&self.image, pos128 as usize)
    }

    /// Look one name up among a directory inode's entries, extent by
    /// extent.
    fn lookup_child(
        &self,
        dir: &Inode,
        pb: &Vec<u8>,
        start: usize,
        end: usize,
        block_size: u64,
        ft: bool,
    ) -> (r: Result<Option<u32>, ExtfsError>)
        requires
            start <= end <= pb@.len(),
        ensures
            (lookup_spec(self.image@, dir@, block_size as int, ft, pb@.subrange(
                start as int,
                end as int,
            )) matches LookRes::Deeper(e) ==> r == Err::<Option<u32>, ExtfsError>(e)),
            (lookup_spec(self.image@, dir@, block_size as int, ft, pb@.subrange(
                start as int,
                end as int,
            )) is BadEntry ==> r is Err && r->Err_0 is Other),
            (lookup_spec(self.image@, dir@, block_size as int, ft, pb@.subrange(
                start as int,
                end as int,
            )) matches LookRes::Hit(ino) ==> r == Ok::<Option<u32>, ExtfsError>(Some(ino))),
            (lookup_spec(self.image@, dir@, block_size as int, ft, pb@.subrange(
                start as int,
                end as int,
            )) is Miss ==> r == Ok::<Option<u32>, ExtfsError>(None)),
    {
        reveal(lookup_spec);
        let ghost bs = block_size as int;
        let ghost nm = pb@.subrange(start as int, end as int);
        let extents = match dir.extents(block_size, &self.image) {
            Ok(x) => x,
            Err(e) => {
                return Err(e);
            },
        };
        let ghost exts = extents@;
        let mut i: usize = 0;
        while i < extents.len()
            invariant
                bs == block_size,
                nm == pb@.subrange(start as int, end as int),
                start <= end <= pb@.len(),
                exts == extents@,
                spec_extents(dir@, self.image@, bs) == Ok::<Seq<Extent>, ExtfsError>(exts),
                i <= exts.len(),
                lookup_exts(self.image@, exts, bs, ft, nm, 0) == lookup_exts(
                    self.image@,
                    exts,
                    bs,
                    ft,
                    nm,
                    i as int,
                ),
            decreases exts.len() - i,
        {
            reveal(lookup_spec);
            let e = extents[i];
            let ents = match e.read_entries(&self.image, block_size, ft) {
                Ok(v) => v,
                Err(err) => {
                    return Err(err);
                },
            };
            let ghost evs = views_of(ents@);
            proof {
                assert(ents_rec(self.image@, ext_base(e, bs), ext_wend(self.image@, e, bs), ft)
                    matches Some(s) && s == evs);
            }
            let mut t: usize = 0;
            while t < ents.len()
                invariant
                    bs == block_size,
                    nm == pb@.subrange(start as int, end as int),
                    start <= end <= pb@.len(),
                    spec_extents(dir@, self.image@, bs) == Ok::<Seq<Extent>, ExtfsError>(exts),
                    i < exts.len(),
                    e == exts[i as int],
                    ents_rec(self.image@, ext_base(e, bs), ext_wend(self.image@, e, bs), ft)
                        == Some(evs),
                    lookup_exts(self.image@, exts, bs, ft, nm, 0) == lookup_exts(
                        self.image@,
                        exts,
                        bs,
                        ft,
                        nm,
                        i as int,
                    ),
                    evs == views_of(ents@),
                    forall|u: int|
                        0 <= u < ents@.len() ==> !(#[trigger] ents@[u])@.is_tail,
                    t <= ents@.len(),
                    find_from(evs, nm, 0) == find_from(evs, nm, t as int),
                decreases ents@.len() - t,
            {
                reveal(lookup_spec);
                proof {
                    assert(evs[t as int] == ents@[t as int]@);
                }
                let hit = match &ents[t] {
                    crate::entry::DirEntryEnum::DirEntry(de) => range_matches(
                        pb,
                        start,
                        end,
                        &de.name,
                    ),
                    crate::entry::DirEntryEnum::DirEntry2(de) => range_matches(
                        pb,
                        start,
                        end,
                        &de.name,
                    ),
                    crate::entry::DirEntryEnum::DirEntryTail(_) => {
                        proof {
                            assert(false);
                        }
                        false
                    },
                };
                if hit {
                    proof {
                        assert(evs[t as int].name == nm);
                        assert(find_from(evs, nm, t as int) == Some(evs[t as int].inode));
                        assert(lookup_exts(self.image@, exts, bs, ft, nm, i as int)
                            == LookRes::Hit(evs[t as int].inode));
                    }
                    match ents[t].get_ino() {
                        Some(ino) => {
                            return Ok(Some(ino));
                        },
                        None => {
                            // entry lists carry no tails, so an inode
                            // number is always present
                            proof {
                                assert(false);
                            }
                            return Ok(Some(0));
                        },
                    }
                }
                proof {
                    assert(evs[t as int].name != nm);
                }
                t = t + 1;
            }
            i = i + 1;
        }
        Ok(None)
    }

    /// Process one name component: require a directory on top of the stack,
    /// look the name up in it, and push the child inode.
    fn push_component(
        &self,
        stack: &mut Vec<Inode>,
        names: &Vec<(usize, usize)>,
        pb: &Vec<u8>,
        start: usize,
        end: usize,
        block_size: u64,
        ft: bool,
    ) -> (r: Result<(), ExtfsError>)
        requires
            self.super_block.wf(),
            block_size == self.super_block.spec_block_size(),
            start <= end <= pb@.len(),
            forall|u: int| 0 <= u < names@.len() ==> (#[trigger] names@[u]).0 <= names@[u].1
                <= pb@.len(),
            old(stack)@.len() >= 1,
            forall|u: int| 0 <= u < old(stack)@.len() ==> (#[trigger] old(stack)@[u])@.wf(),
        ensures
            ({
                let nm = pb@.subrange(start as int, end as int);
                let top = inode_views(old(stack)@).last();
                let prefix = joined(range_names(pb@, names@).push(nm));
                if !top.is_dir() {
                    (r matches Err(ExtfsError::IsNotDirectory(p)) && p@ == lossy_utf8(prefix))
                } else {
                    match lookup_spec(self.image@, top, block_size as int, ft, nm) {
                        LookRes::Deeper(e) => r == Err::<(), ExtfsError>(e),
                        LookRes::BadEntry => r is Err && r->Err_0 is Other,
                        LookRes::Miss => (r matches Err(ExtfsError::NoSuchFileOrDirectory(p)) && p@
                            == lossy_utf8(prefix)),
                        LookRes::Hit(ino) => match inode_fetch(
                            self.image@,
                            self.super_block,
                            self.block_group_descriptors@,
                            ino as int,
                        ) {
                            Err(e) => r == Err::<(), ExtfsError>(e),
                            Ok(child) => r is Ok && inode_views(final(stack)@) == inode_views(
                                old(stack)@,
                            ).push(child),
                        },
                    }
                }
            }),
            final(stack)@.len() >= 1,
            forall|u: int| 0 <= u < final(stack)@.len() ==> (#[trigger] final(stack)@[u])@.wf(),
    {
        let top_is_dir = stack[stack.len() - 1].is_dir();
        proof {
            assert(inode_views(stack@).last() == stack@[stack@.len() - 1]@);
        }
        if !top_is_dir {
            let prefix = build_prefix(pb, names, start, end);
            return Err(ExtfsError::IsNotDirectory(lossy_string(&prefix)));
        }
        let child_ino = {
            let top = &stack[stack.len() - 1];
            match self.lookup_child(top, pb, start, end, block_size, ft) {
                Ok(Some(ino)) => ino,
                Ok(None) => {
                    let prefix = build_prefix(pb, names, start, end);
                    return Err(ExtfsError::NoSuchFileOrDirectory(lossy_string(&prefix)));
                },
                Err(e) => {
                    return Err(e);
                },
            }
        };
        let child = match self.get_inode(child_ino as u64) {
            Ok(x) => x,
            Err(e) => {
                return Err(e);
            },
        };
        let ghost pre_stack = inode_views(stack@);
        stack.push(child);
        proof {
            assert(inode_views(stack@) =~= pre_stack.push(child@));
        }
        Ok(())
    }

    /// Resolve an absolute path to its inode by iterative directory lookup,
    /// with `.` ignored and `..` popping the walked stack.
    #[verifier::rlimit(100)]
    #[verifier::spinoff_prover]
    pub(crate) fn get_inode_by_path(&self, path: &str) -> (r: Result<Inode, ExtfsError>)
        requires
            self.super_block.wf(),
        ensures
            (resolve_path(
                self.image@,
                self.super_block,
                self.block_group_descriptors@,
                self.super_block.spec_block_size(),
                self.super_block.feature_incompat & 0x2 != 0,
                path.spec_bytes(),
            ) matches Resolved::Found(v) ==> r is Ok && r->Ok_0@ == v && v.wf()),
            (!(resolve_path(
                self.image@,
                self.super_block,
                self.block_group_descriptors@,
                self.super_block.spec_block_size(),
                self.super_block.feature_incompat & 0x2 != 0,
                path.spec_bytes(),
            ) is Found) ==> r is Err && resolve_err_matches(
                resolve_path(
                    self.image@,
                    self.super_block,
                    self.block_group_descriptors@,
                    self.super_block.spec_block_size(),
                    self.super_block.feature_incompat & 0x2 != 0,
                    path.spec_bytes(),
                ),
                r->Err_0,
                path@,
            )),
    {
        let ghost sb = self.super_block;
        let ghost ds = self.block_group_descriptors@;
        let ghost bs = self.super_block.spec_block_size();
        let pb: Vec<u8> = vstd::slice::slice_to_vec(path.as_bytes());
        let block_size = self.super_block.get_block_size();
        let ft = self.super_block.feature_incompat_filetype();
        let ghost goal = resolve_path(self.image@, sb, ds, bs, ft, pb@);
        if pb.len() == 0 || *vstd::slice::slice_index_get(pb.as_slice(), 0) != 0x2F {
            return Err(ExtfsError::RequireAbsolutePath(path.to_owned()));
        }
        let root = match self.get_inode(INO_ROOT) {
            Ok(x) => x,
            Err(e) => {
                return Err(e);
            },
        };
        let mut stack: Vec<Inode> = Vec::new();
        stack.push(root);
        let mut names: Vec<(usize, usize)> = Vec::new();
        let ghost comps = comps_from(pb@, 0);
        proof {
            assert(inode_views(stack@) =~= seq![root@]);
            assert(range_names(pb@, names@) =~= Seq::<Seq<u8>>::empty());
            assert(goal == resolve_at(
                self.image@,
                sb,
                ds,
                bs,
                ft,
                comps,
                0,
                inode_views(stack@),
                range_names(pb@, names@),
            ));
        }
        let mut i: usize = 0;
        while i < pb.len()
            invariant
                sb == self.super_block,
                ds == self.block_group_descriptors@,
                bs == self.super_block.spec_block_size(),
                self.super_block.wf(),
                block_size == bs,
                ft == (self.super_block.feature_incompat & 0x2 != 0),
                i <= pb@.len(),
                pb@ == path.spec_bytes(),
                goal == resolve_path(self.image@, sb, ds, bs, ft, path.spec_bytes()),
                stack@.len() >= 1,
                names@.len() + 1 == stack@.len(),
                forall|u: int| 0 <= u < stack@.len() ==> (#[trigger] stack@[u])@.wf(),
                forall|u: int| 0 <= u < names@.len() ==> (#[trigger] names@[u]).0 <= names@[u].1
                    <= pb@.len(),
                goal == resolve_at(
                    self.image@,
                    sb,
                    ds,
                    bs,
                    ft,
                    comps_from(pb@, i as int),
                    0,
                    inode_views(stack@),
                    range_names(pb@, names@),
                ),
            decreases pb@.len() - i,
        {
            if pb[i] == 0x2F {
                i = i + 1;
                continue;
            }
            let start = i;
            let mut j = i;
            while j < pb.len() && pb[j] != 0x2F
                invariant
                    start <= j <= pb@.len(),
                    next_sep(pb@, start as int) == next_sep(pb@, j as int),
                decreases pb@.len() - j,
            {
                j = j + 1;
            }
            proof {
                assert(next_sep(pb@, j as int) == j);
                lemma_next_sep_bound(pb@, start as int);
            }
            let ghost cb = pb@.subrange(start as int, j as int);
            let ghost rest = comps_from(pb@, j as int);
            proof {
                assert(comps_from(pb@, i as int) =~= seq![comp_of(cb)] + rest);
                assert((seq![comp_of(cb)] + rest)[0] == comp_of(cb));
                assert((seq![comp_of(cb)] + rest).subrange(1, (seq![comp_of(cb)] + rest).len() as int)
                    =~= rest.subrange(0, rest.len() as int));
            }
            let is_cur = j - start == 1 && pb[start] == 0x2E;
            let is_parent = j - start == 2 && pb[start] == 0x2E && pb[start + 1] == 0x2E;
            proof {
                assert(cb.len() == j - start);
                if is_cur {
                    assert(cb =~= seq![0x2Eu8]);
                } else {
                    assert(cb != seq![0x2Eu8]) by {
                        if cb.len() == 1 {
                            assert(cb[0] == pb@[start as int]);
                            assert(seq![0x2Eu8][0] == 0x2Eu8);
                        }
                    }
                }
                if is_parent {
                    assert(cb =~= seq![0x2Eu8, 0x2Eu8]);
                } else {
                    assert(cb != seq![0x2Eu8, 0x2Eu8]) by {
                        if cb.len() == 2 {
                            assert(cb[0] == pb@[start as int]);
                            assert(cb[1] == pb@[start as int + 1]);
                            assert(seq![0x2Eu8, 0x2Eu8][0] == 0x2Eu8);
                            assert(seq![0x2Eu8, 0x2Eu8][1] == 0x2Eu8);
                        }
                    }
                }
            }
            if is_cur {
                proof {
                    lemma_resolve_shift(
                        self.image@,
                        sb,
                        ds,
                        bs,
                        ft,
                        seq![comp_of(cb)] + rest,
                        1,
                        rest,
                        0,
                        inode_views(stack@),
                        range_names(pb@, names@),
                    );
                }
                i = j;
                continue;
            }
            if is_parent {
                if stack.len() <= 1 {
                    proof {
                        assert(inode_views(stack@).len() == stack@.len());
                        assert(goal == Resolved::ParentEscape);
                    }
                    return Err(ExtfsError::UnexpectedParentDir(path.to_owned()));
                }
                let ghost pre_stack = inode_views(stack@);
                let ghost pre_names = range_names(pb@, names@);
                stack.pop();
                names.pop();
                proof {
                    assert(inode_views(stack@) =~= pre_stack.drop_last());
                    assert(range_names(pb@, names@) =~= pre_names.drop_last());
                    lemma_resolve_shift(
                        self.image@,
                        sb,
                        ds,
                        bs,
                        ft,
                        seq![comp_of(cb)] + rest,
                        1,
                        rest,
                        0,
                        pre_stack.drop_last(),
                        pre_names.drop_last(),
                    );
                }
                i = j;
                continue;
            }
            // a normal name: the stack's top must be a directory
            proof {
                assert(comp_of(cb) == PathComp::Name(cb));
            }
            let ghost pre_names = range_names(pb@, names@);
            match self.push_component(&mut stack, &names, &pb, start, j, block_size, ft) {
                Ok(()) => {},
                Err(e) => {
                    return Err(e);
                },
            }
            names.push((start, j));
            proof {
                assert(range_names(pb@, names@) =~= pre_names.push(cb));
                lemma_resolve_shift(
                    self.image@,
                    sb,
                    ds,
                    bs,
                    ft,
                    seq![comp_of(cb)] + rest,
                    1,
                    rest,
                    0,
                    inode_views(stack@),
                    range_names(pb@, names@),
                );
            }
            i = j;
        }
        proof {
            assert(comps_from(pb@, pb@.len() as int) =~= Seq::<PathComp>::empty());
            assert(goal == Resolved::Found(inode_views(stack@).last()));
            assert(inode_views(stack@).last() == stack@[stack@.len() - 1]@);
        }
        match stack.pop() {
            Some(top) => Ok(top),
            None => Err(ExtfsError::InvalidPath(path.to_owned())),
        }
    }

    /// Resolve `path`, require a directory, and return an iterator over its
    /// entries. Consumes the filesystem: the image moves into the iterator.
    pub fn read_dir(self, path: &str) -> (r: Result<ReadDir, ExtfsError>)
        requires
            self.super_block.wf(),
        ensures
            (resolve_path(
                self.image@,
                self.super_block,
                self.block_group_descriptors@,
                self.super_block.spec_block_size(),
                self.super_block.feature_incompat & 0x2 != 0,
                path.spec_bytes(),
            ) matches Resolved::Found(v) ==> (if !v.is_dir() {
                r matches Err(ExtfsError::IsNotDirectory(p)) && p@ == path@
            } else {
                match spec_extents(v, self.image@, self.super_block.spec_block_size()) {
                    Ok(s) => r is Ok && r->Ok_0.img@ == self.image@ && r->Ok_0.extents@ == s
                        && r->Ok_0.idx == 0 && r->Ok_0.extent_offset == 0 && r->Ok_0.block_size
                        == self.super_block.spec_block_size()
                        && r->Ok_0.feature_incompat_filetype == (self.super_block.feature_incompat
                        & 0x2 != 0),
                    Err(e) => r == Err::<ReadDir, ExtfsError>(e),
                }
            })),
            (!(resolve_path(
                self.image@,
                self.super_block,
                self.block_group_descriptors@,
                self.super_block.spec_block_size(),
                self.super_block.feature_incompat & 0x2 != 0,
                path.spec_bytes(),
            ) is Found) ==> r is Err && resolve_err_matches(
                resolve_path(
                    self.image@,
                    self.super_block,
                    self.block_group_descriptors@,
                    self.super_block.spec_block_size(),
                    self.super_block.feature_incompat & 0x2 != 0,
                    path.spec_bytes(),
                ),
                r->Err_0,
                path@,
            )),
    {
        let block_size = self.super_block.get_block_size();
        let ft = self.super_block.feature_incompat_filetype();
        let i = match self.get_inode_by_path(path) {
            Ok(x) => x,
            Err(e) => {
                return Err(e);
            },
        };
        if !i.is_dir() {
            return Err(ExtfsError::IsNotDirectory(path.to_owned()));
        }
        i.read_dir(block_size, ft, self.image)
    }

    /// Resolve `path`, require a regular file, and read its entire contents
    /// into a byte vector.
    pub fn read(&self, path: &str) -> (r: Result<Vec<u8>, ExtfsError>)
        requires
            self.super_block.wf(),
        ensures
            (resolve_path(
                self.image@,
                self.super_block,
                self.block_group_descriptors@,
                self.super_block.spec_block_size(),
                self.super_block.feature_incompat & 0x2 != 0,
                path.spec_bytes(),
            ) matches Resolved::Found(v) ==> (if !v.is_regular() {
                r matches Err(ExtfsError::IsNotRegular(p)) && p@ == path@
            } else {
                match bytes_read_spec(v, self.image@, self.super_block.spec_block_size()) {
                    Ok(s) => r is Ok && r->Ok_0@ == s,
                    Err(e) => r == Err::<Vec<u8>, ExtfsError>(e),
                }
            })),
            (!(resolve_path(
                self.image@,
                self.super_block,
                self.block_group_descriptors@,
                self.super_block.spec_block_size(),
                self.super_block.feature_incompat & 0x2 != 0,
                path.spec_bytes(),
            ) is Found) ==> r is Err && resolve_err_matches(
                resolve_path(
                    self.image@,
                    self.super_block,
                    self.block_group_descriptors@,
                    self.super_block.spec_block_size(),
                    self.super_block.feature_incompat & 0x2 != 0,
                    path.spec_bytes(),
                ),
                r->Err_0,
                path@,
            )),
    {
        let i = match self.get_inode_by_path(path) {
            Ok(x) => x,
            Err(e) => {
                return Err(e);
            },
        };
        if !i.is_regular() {
            return Err(ExtfsError::IsNotRegular(path.to_owned()));
        }
        let block_size = self.super_block.get_block_size();
        i.read_bytes(block_size, &self.image)
    }

    /// Resolve `path`, require a symlink, and return its target as lossy
    /// UTF-8 text.
    pub fn read_link(&self, path: &str) -> (r: Result<String, ExtfsError>)
        requires
            self.super_block.wf(),
        ensures
            (resolve_path(
                self.image@,
                self.super_block,
                self.block_group_descriptors@,
                self.super_block.spec_block_size(),
                self.super_block.feature_incompat & 0x2 != 0,
                path.spec_bytes(),
            ) matches Resolved::Found(v) ==> (if !v.is_symlink() {
                r matches Err(ExtfsError::IsNotSymlink(p)) && p@ == path@
            } else {
                match link_read_spec(v, self.image@, self.super_block.spec_block_size()) {
                    Ok(s) => r is Ok && r->Ok_0@ == lossy_utf8(s),
                    Err(e) => r == Err::<String, ExtfsError>(e),
                }
            })),
            (!(resolve_path(
                self.image@,
                self.super_block,
                self.block_group_descriptors@,
                self.super_block.spec_block_size(),
                self.super_block.feature_incompat & 0x2 != 0,
                path.spec_bytes(),
            ) is Found) ==> r is Err && resolve_err_matches(
                resolve_path(
                    self.image@,
                    self.super_block,
                    self.block_group_descriptors@,
                    self.super_block.spec_block_size(),
                    self.super_block.feature_incompat & 0x2 != 0,
                    path.spec_bytes(),
                ),
                r->Err_0,
                path@,
            )),
    {
        let i = match self.get_inode_by_path(path) {
            Ok(x) => x,
            Err(e) => {
                return Err(e);
            },
        };
        if !i.is_symlink() {
            return Err(ExtfsError::IsNotSymlink(path.to_owned()));
        }
        let block_size = self.super_block.get_block_size();
        let target = match i.read_link(block_size, &self.image) {
            Ok(b) => b,
            Err(e) => {
                return Err(e);
            },
        };
        Ok(lossy_string(&target))
    }

    /// Resolve `path` and return a metadata view over its inode.
    pub fn metadata(&self, path: &str) -> (r: Result<Metadata, ExtfsError>)
        requires
            self.super_block.wf(),
        ensures
            (resolve_path(
                self.image@,
                self.super_block,
                self.block_group_descriptors@,
                self.super_block.spec_block_size(),
                self.super_block.feature_incompat & 0x2 != 0,
                path.spec_bytes(),
            ) matches Resolved::Found(v) ==> r is Ok && r->Ok_0.inode@ == v),
            (!(resolve_path(
                self.image@,
                self.super_block,
                self.block_group_descriptors@,
                self.super_block.spec_block_size(),
                self.super_block.feature_incompat & 0x2 != 0,
                path.spec_bytes(),
            ) is Found) ==> r is Err && resolve_err_matches(
                resolve_path(
                    self.image@,
                    self.super_block,
                    self.block_group_descriptors@,
                    self.super_block.spec_block_size(),
                    self.super_block.feature_incompat & 0x2 != 0,
                    path.spec_bytes(),
                ),
                r->Err_0,
                path@,
            )),
    {
        let i = match self.get_inode_by_path(path) {
            Ok(x) => x,
            Err(e) => {
                return Err(e);
            },
        };
        Ok(Metadata::new(i))
    }

    /// Resolve `path`, require a regular file, and open a positional reader
    /// over it. Consumes the filesystem: the image moves into the reader.
    pub fn open(self, path: &str) -> (r: Result<File, ExtfsError>)
        requires
            self.super_block.wf(),
        ensures
            r is Ok ==> r->Ok_0.current == 0,
            (resolve_path(
                self.image@,
                self.super_block,
                self.block_group_descriptors@,
                self.super_block.spec_block_size(),
                self.super_block.feature_incompat & 0x2 != 0,
                path.spec_bytes(),
            ) matches Resolved::Found(v) ==> (if !v.is_regular() {
                r matches Err(ExtfsError::IsNotRegular(p)) && p@ == path@
            } else {
                match spec_extents(v, self.image@, self.super_block.spec_block_size()) {
                    Ok(s) => r is Ok && r->Ok_0.img@ == self.image@ && r->Ok_0.extents@ == s
                        && r->Ok_0.len == v.size() && r->Ok_0.current == 0 && r->Ok_0.block_size
                        == self.super_block.spec_block_size(),
                    Err(e) => r == Err::<File, ExtfsError>(e),
                }
            })),
            (!(resolve_path(
                self.image@,
                self.super_block,
                self.block_group_descriptors@,
                self.super_block.spec_block_size(),
                self.super_block.feature_incompat & 0x2 != 0,
                path.spec_bytes(),
            ) is Found) ==> r is Err && resolve_err_matches(
                resolve_path(
                    self.image@,
                    self.super_block,
                    self.block_group_descriptors@,
                    self.super_block.spec_block_size(),
                    self.super_block.feature_incompat & 0x2 != 0,
                    path.spec_bytes(),
                ),
                r->Err_0,
                path@,
            )),
    {
        let block_size = self.super_block.get_block_size();
        let i = match self.get_inode_by_path(path) {
            Ok(x) => x,
            Err(e) => {
                return Err(e);
            },
        };
        if !i.is_regular() {
            return Err(ExtfsError::IsNotRegular(path.to_owned()));
        }
        i.read_file(block_size, self.image)
    }
}

} // verus!
