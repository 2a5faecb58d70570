//! Linear directory entries: the classic layout, the filetype layout, and
//! the tail sentinel that ends a directory block.

use vstd::prelude::*;

use crate::codec::{le16, le32, read_u16, read_u32, read_u8};
use crate::errors::ExtfsError;
use crate::text::{lossy_string, lossy_utf8};

verus! {

/// What an entry looks like in specifications: one flat record covering all
/// three on-disk shapes.
pub struct DirEntryView {
    pub is_tail: bool,
    pub classic: bool,
    pub inode: u32,
    pub rec_len: u16,
    pub name_len: u16,
    pub file_type: u8,
    pub checksum: u32,
    pub name: Seq<u8>,
}

pub open spec fn dot_name() -> Seq<u8> {
    seq![0x2Eu8]
}

pub open spec fn dotdot_name() -> Seq<u8> {
    seq![0x2Eu8, 0x2Eu8]
}

impl DirEntryView {
    pub open spec fn is_dot(self) -> bool {
        !self.is_tail && self.name == dot_name()
    }

    pub open spec fn is_dotdot(self) -> bool {
        !self.is_tail && self.name == dotdot_name()
    }
}

/// Classic layout: a 16-bit name length and no file type byte.
#[derive(Debug, Clone, PartialEq)]
pub struct DirEntry {
    /// Number of the inode that this directory entry points to.
    pub inode: u32,
    /// Length of this directory entry.
    pub rec_len: u16,
    /// Length of the file name.
    pub name_len: u16,
    /// File name.
    pub name: Vec<u8>,
}

/// Filetype layout: an 8-bit name length and a file type code.
#[derive(Debug, Clone, PartialEq)]
pub struct DirEntry2 {
    /// Number of the inode that this directory entry points to.
    pub inode: u32,
    /// Length of this directory entry.
    pub rec_len: u16,
    /// Length of the file name.
    pub name_len: u8,
    /// File type code.
    pub file_type: u8,
    /// File name.
    pub name: Vec<u8>,
}

/// Sentinel entry that terminates a directory block.
#[derive(Debug, Clone, PartialEq)]
pub struct DirEntryTail {
    /// Inode number, which must be zero.
    pub reserved_zero1: u32,
    /// Length of this directory entry, which must be 12.
    pub rec_len: u16,
    /// Name length, which must be zero.
    pub reserved_zero2: u8,
    /// File type, which must be 0xDE.
    pub reserved_ft: u8,
    /// Directory leaf block checksum.
    pub checksum: u32,
}

/// One parsed directory entry of any of the three on-disk shapes.
#[derive(Debug, Clone, PartialEq)]
pub enum DirEntryEnum {
    DirEntry(DirEntry),
    DirEntry2(DirEntry2),
    DirEntryTail(DirEntryTail),
}

impl View for DirEntryEnum {
    type V = DirEntryView;

    open spec fn view(&self) -> DirEntryView {
        match self {
            DirEntryEnum::DirEntry(e) => DirEntryView {
                is_tail: false,
                classic: true,
                inode: e.inode,
                rec_len: e.rec_len,
                name_len: e.name_len,
                file_type: 0,
                checksum: 0,
                name: e.name@,
            },
            DirEntryEnum::DirEntry2(e) => DirEntryView {
                is_tail: false,
                classic: false,
                inode: e.inode,
                rec_len: e.rec_len,
                name_len: e.name_len as u16,
                file_type: e.file_type,
                checksum: 0,
                name: e.name@,
            },
            DirEntryEnum::DirEntryTail(t) => DirEntryView {
                is_tail: true,
                classic: false,
                inode: 0,
                rec_len: t.rec_len,
                name_len: 0,
                file_type: t.reserved_ft,
                checksum: t.checksum,
                name: Seq::empty(),
            },
        }
    }
}

impl DirEntry2 {
    /// The entry's name decoded as lossy UTF-8.
    pub fn get_name(&self) -> (r: String)
        ensures
            r@ == lossy_utf8(self.name@),
    {
        lossy_string(&self.name)
    }
}

/// Outcome of decoding one entry from the window `[off, end)` of the image.
pub enum EntOut {
    /// The window ended before the record did: a normal end of scan.
    Eof,
    /// A malformed record: bad tail bytes, or `rec_len < 8 + name_len`.
    Bad,
    /// An entry, and the offset where the next record begins.
    Parsed(DirEntryView, int),
}

/// One directory entry decoded at `off`, reading no byte at `end` or past
/// it. Field order and error precedence follow the on-disk layout: fixed
/// head, tail detection on `inode == 0 && rec_len == 12`, name bytes, then
/// the record-length padding that aligns the next entry.
pub open spec fn parse_ent(img: Seq<u8>, off: int, end: int, filetype: bool) -> EntOut {
    if off + 6 > end {
        EntOut::Eof
    } else {
        let ino = le32(img, off);
        let rl = le16(img, off + 4);
        if ino == 0 && rl == 12 {
            if off + 8 > end {
                EntOut::Eof
            } else if img[off + 6] != 0 || img[off + 7] != 0xDE {
                EntOut::Bad
            } else if off + 12 > end {
                EntOut::Eof
            } else {
                EntOut::Parsed(
                    DirEntryView {
                        is_tail: true,
                        classic: false,
                        inode: 0,
                        rec_len: 12,
                        name_len: 0,
                        file_type: 0xDE,
                        checksum: le32(img, off + 8) as u32,
                        name: Seq::empty(),
                    },
                    off + 12,
                )
            }
        } else if filetype {
            if off + 8 > end {
                EntOut::Eof
            } else {
                let nl = img[off + 6] as int;
                if off + 8 + nl > end {
                    EntOut::Eof
                } else if rl < 8 + nl {
                    EntOut::Bad
                } else if off + rl > end {
                    EntOut::Eof
                } else {
                    EntOut::Parsed(
                        DirEntryView {
                            is_tail: false,
                            classic: false,
                            inode: ino as u32,
                            rec_len: rl as u16,
                            name_len: nl as u16,
                            file_type: img[off + 7],
                            checksum: 0,
                            name: img.subrange(off + 8, off + 8 + nl),
                        },
                        off + rl,
                    )
                }
            }
        } else {
            if off + 8 > end {
                EntOut::Eof
            } else {
                let nl = le16(img, off + 6);
                if off + 8 + nl > end {
                    EntOut::Eof
                } else if rl < 8 + nl {
                    EntOut::Bad
                } else if off + rl > end {
                    EntOut::Eof
                } else {
                    EntOut::Parsed(
                        DirEntryView {
                            is_tail: false,
                            classic: true,
                            inode: ino as u32,
                            rec_len: rl as u16,
                            name_len: nl as u16,
                            file_type: 0,
                            checksum: 0,
                            name: img.subrange(off + 8, off + 8 + nl),
                        },
                        off + rl,
                    )
                }
            }
        }
    }
}

impl DirEntryEnum {
    /// The record length, common to all three shapes.
    pub fn get_rec_len(&self) -> (r: u16)
        ensures
            r == self@.rec_len,
    {
        match self {
            DirEntryEnum::DirEntry(e) => e.rec_len,
            DirEntryEnum::DirEntry2(e) => e.rec_len,
            DirEntryEnum::DirEntryTail(e) => e.rec_len,
        }
    }

    /// The inode number the entry points to; a tail carries none.
    pub fn get_ino(&self) -> (r: Option<u32>)
        ensures
            r == (if self@.is_tail {
                Option::<u32>::None
            } else {
                Option::<u32>::Some(self@.inode)
            }),
    {
        match self {
            DirEntryEnum::DirEntry(e) => Some(e.inode),
            DirEntryEnum::DirEntry2(e) => Some(e.inode),
            DirEntryEnum::DirEntryTail(_) => None,
        }
    }

    /// The entry's name decoded as lossy UTF-8; empty for a tail.
    pub fn get_name_str(&self) -> (r: String)
        ensures
            r@ == lossy_utf8(self@.name),
    {
        match self {
            DirEntryEnum::DirEntry(e) => lossy_string(&e.name),
            DirEntryEnum::DirEntry2(e) => lossy_string(&e.name),
            DirEntryEnum::DirEntryTail(_) => {
                let empty: Vec<u8> = Vec::new();
                let r = lossy_string(&empty);
                proof {
                    assert(empty@ =~= self@.name);
                }
                r
            },
        }
    }

    /// Whether the entry's name is `.`.
    pub fn is_dot(&self) -> (r: bool)
        ensures
            r == self@.is_dot(),
    {
        match self {
            DirEntryEnum::DirEntry(e) => {
                let r = e.name.len() == 1 && e.name[0] == 0x2E;
                proof {
                    assert(r ==> e.name@ =~= dot_name());
                }
                r
            },
            DirEntryEnum::DirEntry2(e) => {
                let r = e.name.len() == 1 && e.name[0] == 0x2E;
                proof {
                    assert(r ==> e.name@ =~= dot_name());
                }
                r
            },
            DirEntryEnum::DirEntryTail(_) => false,
        }
    }

    /// Whether the entry's name is `..`.
    pub fn is_dotdot(&self) -> (r: bool)
        ensures
            r == self@.is_dotdot(),
    {
        match self {
            DirEntryEnum::DirEntry(e) => {
                let r = e.name.len() == 2 && e.name[0] == 0x2E && e.name[1] == 0x2E;
                proof {
                    assert(r ==> e.name@ =~= dotdot_name());
                }
                r
            },
            DirEntryEnum::DirEntry2(e) => {
                let r = e.name.len() == 2 && e.name[0] == 0x2E && e.name[1] == 0x2E;
                proof {
                    assert(r ==> e.name@ =~= dotdot_name());
                }
                r
            },
            DirEntryEnum::DirEntryTail(_) => false,
        }
    }

    /// Decode one entry from the window `[off, end)` of the image. A short
    /// window is a `Decode` error; a malformed record is `Other`. On
    /// success the offset of the next record comes back beside the entry.
    pub fn from_reader(img: &Vec<u8>, off: usize, end: usize, feature_incompat_filetype: bool) -> (r:
        Result<(DirEntryEnum, usize), ExtfsError>)
        requires
            end <= img@.len(),
        ensures
            (parse_ent(img@, off as int, end as int, feature_incompat_filetype) is Eof) <==> r
                == Err::<(DirEntryEnum, usize), ExtfsError>(ExtfsError::Decode),
            (parse_ent(img@, off as int, end as int, feature_incompat_filetype) is Bad) ==> (r
                is Err && r->Err_0 is Other),
            (parse_ent(img@, off as int, end as int, feature_incompat_filetype) matches
                EntOut::Parsed(v, next) ==> r is Ok && r->Ok_0.0@ == v && r->Ok_0.1 == next),
    {
        if off > end || end - off < 6 {
            return Err(ExtfsError::Decode);
        }
        let inode = read_u32(img, off);
        let rec_len = read_u16(img, off + 4);

        if inode == 0 && rec_len == 12 {
            if end - off < 8 {
                return Err(ExtfsError::Decode);
            }
            let reserved_zero2 = read_u8(img, off + 6);
            let reserved_ft = read_u8(img, off + 7);
            if reserved_zero2 != 0 || reserved_ft != 0xDE {
                return Err(ExtfsError::Other(invalid_tail_note()));
            }
            if end - off < 12 {
                return Err(ExtfsError::Decode);
            }
            let checksum = read_u32(img, off + 8);
            return Ok((
                DirEntryEnum::DirEntryTail(DirEntryTail {
                    reserved_zero1: inode,
                    rec_len,
                    reserved_zero2,
                    reserved_ft,
                    checksum,
                }),
                off + 12,
            ));
        }

        if end - off < 8 {
            return Err(ExtfsError::Decode);
        }
        let name_len: u16 = if feature_incompat_filetype {
            read_u8(img, off + 6) as u16
        } else {
            read_u16(img, off + 6)
        };
        if end - off < 8 || end - off - 8 < name_len as usize {
            return Err(ExtfsError::Decode);
        }
        if rec_len < 8 || rec_len - 8 < name_len {
            return Err(ExtfsError::Other(short_record_note()));
        }
        if end - off < rec_len as usize {
            return Err(ExtfsError::Decode);
        }
        let name = vstd::slice::slice_to_vec(
            vstd::slice::slice_subrange(img.as_slice(), off + 8, off + 8 + name_len as usize),
        );
        let entry = if feature_incompat_filetype {
            let file_type = read_u8(img, off + 7);
            DirEntryEnum::DirEntry2(DirEntry2 {
                inode,
                rec_len,
                name_len: name_len as u8,
                file_type,
                name,
            })
        } else {
            DirEntryEnum::DirEntry(DirEntry { inode, rec_len, name_len, name })
        };
        Ok((entry, off + rec_len as usize))
    }
}

fn invalid_tail_note() -> String {
    "invalid dir entry tail".to_owned()
}

fn short_record_note() -> String {
    "dir entry rec_len shorter than its name".to_owned()
}

/// Hash Tree Directories: the root of a hash tree. The on-disk INDEX flag
/// is ignored and directories are scanned linearly.
pub struct DxRoot {}

} // verus!
