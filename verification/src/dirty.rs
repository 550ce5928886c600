//! Dirty-range tracking for CPU shadow copies of GPU buffers.
//!
//! Writes through a buffer's shadow memory mark byte ranges dirty; ranges are
//! merged into the smallest range covering them, and at submit time the dirty
//! part of the shadow memory is uploaded once.

use vstd::prelude::*;

verus! {

/// Dirty byte range of one buffer: none when clean, else `(start, end)`.
pub struct DirtyRange {
    pub range: Option<(u64, u64)>,
}

/// The smallest range covering both ranges.
pub open spec fn hull(a: (u64, u64), b: (u64, u64)) -> (u64, u64) {
    (if a.0 <= b.0 { a.0 } else { b.0 }, if a.1 >= b.1 { a.1 } else { b.1 })
}

impl DirtyRange {
    /// A clean range.
    pub fn new() -> (d: Self)
        ensures
            d.range is None,
    {
        DirtyRange { range: None }
    }

    /// Marks `size` bytes from `offset` dirty, merging with what is already
    /// dirty into the smallest covering range.
    pub fn mark(&mut self, offset: u64, size: u64)
        requires
            offset + size <= u64::MAX,
        ensures
            final(self).range == Some(
                match old(self).range {
                    None => (offset, (offset + size) as u64),
                    Some(r) => hull(r, (offset, (offset + size) as u64)),
                },
            ),
    {
        let new_range = (offset, offset + size);
        self.range = Some(
            match self.range {
                None => new_range,
                Some(existing) => {
                    let start = if existing.0 <= new_range.0 { existing.0 } else { new_range.0 };
                    let end = if existing.1 >= new_range.1 { existing.1 } else { new_range.1 };
                    (start, end)
                },
            },
        );
    }

    /// Takes the dirty range, leaving the buffer clean.
    pub fn take(&mut self) -> (r: Option<(u64, u64)>)
        ensures
            r == old(self).range,
            final(self).range is None,
    {
        let r = self.range;
        self.range = None;
        r
    }
}

/// Part of a shadow copy of `shadow_len` bytes to upload for a dirty range:
/// from the range's start to its end clamped to the shadow length; none when
/// that is empty.
pub fn upload_window(range: (u64, u64), shadow_len: usize) -> (w: Option<(usize, usize)>)
    ensures
        ({
            let start = range.0 as usize;
            let end = if (range.1 as usize) < shadow_len { range.1 as usize } else { shadow_len };
            &&& start < end ==> w == Some((start, end))
            &&& start >= end ==> w is None
        }),
{
    let start = range.0 as usize;
    let end_raw = range.1 as usize;
    let end = if end_raw < shadow_len { end_raw } else { shadow_len };
    if start < end {
        Some((start, end))
    } else {
        None
    }
}

/// The dirty range a buffer ends with does not depend on the order in which
/// ranges were marked, and it covers every range marked.
pub proof fn lemma_mark_order_irrelevant(r: (u64, u64), a: (u64, u64), b: (u64, u64))
    ensures
        hull(hull(r, a), b) == hull(hull(r, b), a),
        hull(a, b) == hull(b, a),
        hull(hull(r, a), b).0 <= a.0 && hull(hull(r, a), b).0 <= b.0,
        hull(hull(r, a), b).1 >= a.1 && hull(hull(r, a), b).1 >= b.1,
{
}

} // verus!
