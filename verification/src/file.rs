//! A positional reader over a regular file's extents: read in chunks, seek
//! from the start, the end (negative offsets only) or the cursor.

use vstd::prelude::*;

use crate::errors::ExtfsError;
use crate::extent::{
    cov, cov_from, ext_bytes, ext_loc, file_window, fpos, fpos_from, imin, lemma_cov_from_nonneg,
    lemma_cov_split, lemma_fpos_prefix, pre_bytes, reads_ok, Extent,
};

verus! {

/// Where a seek is measured from. End offsets must be negative; cursor
/// offsets may go either way.
#[derive(Debug, Clone, Copy, PartialEq, Eq, Structural)]
pub enum SeekFrom {
    Start(u64),
    End(i64),
    Current(i64),
}

/// The cursor a seek lands on, or nothing when the seek is rejected: a
/// non-negative end offset, or a cursor leaving `[0, u64::MAX]`.
pub open spec fn seek_target(len: int, current: int, pos: SeekFrom) -> Option<int> {
    match pos {
        SeekFrom::Start(o) => Some(o as int),
        SeekFrom::End(o) => {
            if o >= 0 {
                None
            } else if len + o < 0 {
                None
            } else {
                Some(len + o)
            }
        },
        SeekFrom::Current(o) => {
            if current + o < 0 || current + o > u64::MAX {
                None
            } else {
                Some(current + o)
            }
        },
    }
}

/// What one `read` call yields from cursor `current`: the next
/// `min(max, len - current)` file bytes, clipped to what the extents cover;
/// a needed byte past the image is a decode error.
pub open spec fn file_read_spec(
    img: Seq<u8>,
    exts: Seq<Extent>,
    bs: int,
    len: int,
    current: int,
    max: int,
) -> Result<(Seq<u8>, int), ExtfsError> {
    if max <= 0 || current >= len {
        Ok((Seq::<u8>::empty(), current))
    } else {
        let budget = imin(max, len - current);
        let n = file_read_n(exts, bs, current, budget);
        if reads_ok(img, exts, bs, current, n) {
            Ok((file_window(img, exts, bs, current, n), current + n))
        } else {
            Err(ExtfsError::Decode)
        }
    }
}

/// A positional reader: owns the image, the file's extent list, its length
/// and a byte cursor.
pub struct File {
    pub img: Vec<u8>,
    pub extents: Vec<Extent>,
    pub len: u64,
    pub current: u64,
    pub block_size: u64,
}

impl File {
    pub fn new(reader: Vec<u8>, extents: Vec<Extent>, len: u64, block_size: u64) -> (r: File)
        ensures
            r.img@ == reader@,
            r.extents@ == extents@,
            r.len == len,
            r.current == 0,
            r.block_size == block_size,
    {
        File { img: reader, extents, len, current: 0, block_size }
    }

    /// Move the cursor. Seeks from the end take negative offsets only;
    /// a seek before byte zero or past `u64::MAX` is rejected.
    pub fn seek(&mut self, pos: SeekFrom) -> (r: Result<u64, ExtfsError>)
        ensures
            final(self).img == old(self).img,
            final(self).extents == old(self).extents,
            final(self).len == old(self).len,
            final(self).block_size == old(self).block_size,
            (seek_target(old(self).len as int, old(self).current as int, pos) matches Some(t) ==> (r
                matches Ok(c) && c == t && final(self).current == t)),
            (seek_target(old(self).len as int, old(self).current as int, pos) is None ==> r is Err
                && r->Err_0 is Other && final(self).current == old(self).current),
    {
        match pos {
            SeekFrom::Start(offset) => {
                self.current = offset;
                Ok(self.current)
            },
            SeekFrom::End(offset) => {
                if offset >= 0 {
                    return Err(ExtfsError::Other(positive_end_note()));
                }
                let magnitude: u64 = (-(offset as i128)) as u64;
                if magnitude > self.len {
                    return Err(ExtfsError::Other(before_start_note()));
                }
                self.current = self.len - magnitude;
                Ok(self.current)
            },
            SeekFrom::Current(offset) => {
                if offset < 0 {
                    let magnitude: u64 = (-(offset as i128)) as u64;
                    if magnitude > self.current {
                        return Err(ExtfsError::Other(before_start_note()));
                    }
                    self.current = self.current - magnitude;
                } else {
                    if self.current > u64::MAX - (offset as u64) {
                        return Err(ExtfsError::Other(past_end_note()));
                    }
                    self.current = self.current + (offset as u64);
                }
                Ok(self.current)
            },
        }
    }

    /// Read up to `max` bytes at the cursor and advance it by what came
    /// back. Fewer bytes than `max` come back at the end of the file; none
    /// at or past it.
    pub fn read(&mut self, max: usize) -> (r: Result<Vec<u8>, ExtfsError>)
        ensures
            final(self).img == old(self).img,
            final(self).extents == old(self).extents,
            final(self).len == old(self).len,
            final(self).block_size == old(self).block_size,
            (file_read_spec(
                old(self).img@,
                old(self).extents@,
                old(self).block_size as int,
                old(self).len as int,
                old(self).current as int,
                max as int,
            ) matches Ok(sc) ==> (r matches Ok(v) && v@ == sc.0 && final(self).current == sc.1)),
            (file_read_spec(
                old(self).img@,
                old(self).extents@,
                old(self).block_size as int,
                old(self).len as int,
                old(self).current as int,
                max as int,
            ) matches Err(e) ==> r == Err::<Vec<u8>, ExtfsError>(e) && final(self).current == old(
                self,
            ).current),
    {
        let ghost bs = self.block_size as int;
        let ghost exts = self.extents@;
        let ghost cur = self.current as int;
        if max == 0 || self.current >= self.len {
            let empty: Vec<u8> = Vec::new();
            proof {
                assert(empty@ =~= Seq::<u8>::empty());
            }
            return Ok(empty);
        }
        let budget: u64 = if (max as u64) < self.len - self.current {
            max as u64
        } else {
            self.len - self.current
        };
        let ghost n = file_read_n(exts, bs, cur, budget as int);
        let mut out: Vec<u8> = Vec::new();
        let mut cum: u128 = 0;
        let mut i: usize = 0;
        while i < self.extents.len()
            invariant
                self == old(self),
                bs == self.block_size,
                exts == self.extents@,
                cur == self.current,
                0 < budget <= self.len - self.current,
                max > 0,
                budget == imin(max as int, self.len - cur),
                n == file_read_n(exts, bs, cur, budget as int),
                i <= exts.len(),
                cum == pre_bytes(exts, bs, i as int),
                out@.len() < budget,
                cur + out@.len() >= cum,
                out@.len() > 0 ==> cur + out@.len() == cum,
                forall|j: int|
                    0 <= j < out@.len() ==> 0 <= #[trigger] fpos(exts, bs, cur + j) < self.img@.len()
                        && out@[j] == self.img@[fpos(exts, bs, cur + j)],
            decreases exts.len() - i,
        {
            let e = self.extents[i];
            proof {
                lemma_cov_split(exts, bs, i as int);
                lemma_cov_split(exts, bs, i + 1);
                lemma_cov_from_nonneg(exts, bs, i + 1);
                vstd::arithmetic::mul::lemma_mul_nonnegative(e.len as int, bs);
                vstd::arithmetic::mul::lemma_mul_nonnegative(ext_loc(e), bs);
                vstd::arithmetic::mul::lemma_mul_upper_bound(
                    e.len as int,
                    u16::MAX as int,
                    bs,
                    u64::MAX as int,
                );
            }
            let eb128: u128 = (e.len as u128) * (self.block_size as u128);
            let pos128: u128 = (self.current as u128) + (out.len() as u128);
            if pos128 - cum >= eb128 {
                cum = cum + eb128;
                i = i + 1;
                continue;
            }
            let start_in: u64 = (pos128 - cum) as u64;
            let want: u64 = budget - (out.len() as u64);
            let ghost take = imin(ext_bytes(e, bs) - start_in, want as int);
            match e.read_bytes(&self.img, self.block_size, start_in, want) {
                Err(_) => {
                    proof {
                        let j = cur + out@.len() + take - 1;
                        lemma_fpos_prefix(exts, bs, i as int, start_in + take - 1);
                        assert(fpos(exts, bs, j) == ext_loc(e) * bs + start_in + (take - 1));
                        assert(fpos(exts, bs, j) >= self.img@.len());
                        assert(cur <= j < cur + n);
                        assert(!reads_ok(self.img@, exts, bs, cur, n));
                    }
                    return Err(ExtfsError::Decode);
                },
                Ok(chunk) => {
                    proof {
                        let base = out@.len() as int;
                        assert forall|j: int| base <= j < base + chunk@.len() implies 0
                            <= #[trigger] fpos(exts, bs, cur + j) < self.img@.len() && chunk@[j
                            - base] == self.img@[fpos(exts, bs, cur + j)] by {
                            lemma_fpos_prefix(exts, bs, i as int, start_in + (j - base));
                            assert(fpos_from(exts, bs, i as int, start_in + (j - base)) == ext_loc(
                                e,
                            ) * bs + start_in + (j - base));
                        }
                    }
                    let clen = chunk.len();
                    let mut c = chunk;
                    out.append(&mut c);
                    if out.len() as u64 == budget {
                        proof {
                            assert(cur + out@.len() <= cov(exts, bs));
                            assert(n == budget);
                            assert forall|j: int| cur <= j < cur + n implies 0 <= #[trigger] fpos(
                                exts,
                                bs,
                                j,
                            ) < self.img@.len() by {
                                assert(0 <= fpos(exts, bs, cur + (j - cur)) < self.img@.len());
                            }
                            assert(reads_ok(self.img@, exts, bs, cur, n));
                            assert(out@ =~= file_window(self.img@, exts, bs, cur, n));
                        }
                        let advance = out.len();
                        self.current = self.current + advance as u64;
                        return Ok(out);
                    }
                    cum = cum + eb128;
                    i = i + 1;
                },
            }
        }
        proof {
            lemma_cov_split(exts, bs, exts.len() as int);
            assert(cov_from(exts, bs, exts.len() as int) == 0);
            assert(out@.len() == n);
            assert forall|j: int| cur <= j < cur + n implies 0 <= #[trigger] fpos(exts, bs, j)
                < self.img@.len() by {
                assert(0 <= fpos(exts, bs, cur + (j - cur)) < self.img@.len());
            }
            assert(reads_ok(self.img@, exts, bs, cur, n));
            assert(out@ =~= file_window(self.img@, exts, bs, cur, n));
        }
        let advance = out.len();
        self.current = self.current + advance as u64;
        Ok(out)
    }
}

/// The byte count one `read` call yields: the budget, clipped to coverage.
pub open spec fn file_read_n(exts: Seq<Extent>, bs: int, current: int, budget: int) -> int {
    let avail = cov(exts, bs) - current;
    if avail < budget {
        if avail < 0 {
            0
        } else {
            avail
        }
    } else {
        budget
    }
}

/// Law: consecutive reads concatenate. The bytes of the window
/// `[from, from + a + b)` are the bytes of `[from, from + a)` followed by
/// those of `[from + a, from + a + b)`: reading to exhaustion in chunks
/// yields the same bytes as one big read.
pub proof fn lemma_file_window_concat(
    img: Seq<u8>,
    exts: Seq<Extent>,
    bs: int,
    from: int,
    a: int,
    b: int,
)
    requires
        0 <= a,
        0 <= b,
    ensures
        file_window(img, exts, bs, from, a + b) == file_window(img, exts, bs, from, a)
            + file_window(img, exts, bs, from + a, b),
{
    assert(file_window(img, exts, bs, from, a + b) =~= file_window(img, exts, bs, from, a)
        + file_window(img, exts, bs, from + a, b));
}

/// Law: opening a file and reading it whole from the start yields exactly
/// the bytes that reading the file in one call yields — both are the
/// window `[0, min(size, coverage))` of the extent layout, and both fail
/// alike.
pub proof fn lemma_open_then_read_equals_read(
    ino: crate::inode::InodeView,
    img: Seq<u8>,
    bs: int,
    max: int,
)
    requires
        bs >= 0,
        max >= ino.size(),
        max >= 1,
    ensures
        crate::inode::spec_extents(ino, img, bs) matches Ok(exts) ==> (match crate::inode::bytes_read_spec(
            ino,
            img,
            bs,
        ) {
            Ok(s) => file_read_spec(img, exts, bs, ino.size(), 0, max) == Ok::<
                (Seq<u8>, int),
                ExtfsError,
            >((s, s.len() as int)),
            Err(e) => file_read_spec(img, exts, bs, ino.size(), 0, max) == Err::<
                (Seq<u8>, int),
                ExtfsError,
            >(e),
        }),
{
    match crate::inode::spec_extents(ino, img, bs) {
        Ok(exts) => {
            lemma_cov_from_nonneg(exts, bs, 0);
            let m = imin(ino.size(), cov(exts, bs));
            if ino.size() <= 0 {
                assert(file_window(img, exts, bs, 0, 0) =~= Seq::<u8>::empty());
            } else {
                let budget = imin(max, ino.size());
                assert(budget == ino.size());
                assert(file_read_n(exts, bs, 0, budget) == m);
            }
        },
        Err(_) => {},
    }
}

/// Law: at or past the readable span nothing more comes back and the
/// cursor stays put — the exit condition of a read-to-exhaustion loop.
/// With `lemma_open_then_read_equals_read` (the first whole-file read
/// yields everything `read` yields) and `lemma_file_window_concat`
/// (consecutive reads concatenate), reading until an empty result
/// accumulates exactly the one-call contents.
pub proof fn lemma_read_past_coverage(
    img: Seq<u8>,
    exts: Seq<Extent>,
    bs: int,
    len: int,
    current: int,
    max: int,
)
    requires
        current >= len || current >= cov(exts, bs),
    ensures
        file_read_spec(img, exts, bs, len, current, max) matches Ok(sc) && sc.0 == Seq::<
            u8,
        >::empty() && sc.1 == current,
{
    if max > 0 && current < len {
        assert(file_read_n(exts, bs, current, imin(max, len - current)) == 0);
        assert(file_window(img, exts, bs, current, 0) =~= Seq::<u8>::empty());
    }
}

fn positive_end_note() -> String {
    "expect negative offset".to_owned()
}

fn before_start_note() -> String {
    "seek before the start of the file".to_owned()
}

fn past_end_note() -> String {
    "seek past the largest position".to_owned()
}

} // verus!
