//! Cutting one page out of the rows that a query matched, together with their number.

use vstd::prelude::*;

verus! {

/// Where the page starts in `len` rows: `offset`, held between 0 and `len`.
pub open spec fn page_start(len: int, offset: int) -> int {
    if offset <= 0 {
        0
    } else if offset >= len {
        len
    } else {
        offset
    }
}

/// How many rows the page holds: `limit`, held between 0 and what is left after the start.
pub open spec fn page_len(len: int, offset: int, limit: int) -> int {
    let left = len - page_start(len, offset);
    if limit <= 0 {
        0
    } else if limit >= left {
        left
    } else {
        limit
    }
}

/// The page of `rows` that starts after `offset` rows and holds at most `limit` of them.
/// A negative offset or limit counts as zero.
pub open spec fn page<T>(rows: Seq<T>, offset: int, limit: int) -> Seq<T> {
    let start = page_start(rows.len() as int, offset);
    rows.subrange(start, start + page_len(rows.len() as int, offset, limit))
}

/// Values that can be cut into pages.
pub trait OffsetLimit: Sized {
    /// Pairs the value with the page asked of it.
    fn offset_and_limit(self, offset: i64, limit: i64) -> (r: OffsetLimited<Self>)
        ensures
            r.query == self,
            r.offset == offset,
            r.limit == limit,
    ;
}

impl<T> OffsetLimit for T {
    fn offset_and_limit(self, offset: i64, limit: i64) -> (r: OffsetLimited<Self>) {
        OffsetLimited { query: self, offset, limit }
    }
}

/// The rows that a query matched, and the page asked of them.
#[derive(Debug)]
pub struct OffsetLimited<T> {
    pub query: T,
    pub offset: i64,
    pub limit: i64,
}

impl<U> OffsetLimited<Vec<U>> {
    /// The page, and the number of all rows matched, whatever the page.
    pub fn load_and_count(self) -> (r: (Vec<U>, i64))
        requires
            self.query.len() <= i64::MAX,
        ensures
            r.0@ == page(self.query@, self.offset as int, self.limit as int),
            r.1 == self.query.len(),
    {
        let mut rows = self.query;
        let len = rows.len();
        let ghost all = rows@;
        let start: usize = if self.offset <= 0 {
            0
        } else if self.offset >= len as i64 {
            len
        } else {
            self.offset as usize
        };
        let left: usize = len - start;
        let count: usize = if self.limit <= 0 {
            0
        } else if self.limit >= left as i64 {
            left
        } else {
            self.limit as usize
        };
        rows.truncate(start + count);
        let page_rows = rows.split_off(start);
        assert(page_rows@ =~= page(all, self.offset as int, self.limit as int));
        (page_rows, len as i64)
    }
}

} // verus!
