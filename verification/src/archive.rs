//! The completed archive: the bounded in-memory record of consumed and
//! dismissed items. Canonical order is oldest first — the order of the
//! durable append-only log — and paged reads reverse it, so the newest
//! entry comes first on a page.

use vstd::prelude::*;
use crate::item::ReviewItem;

verus! {

/// How many completed items the bounded list keeps. The durable log is
/// unbounded; only this in-memory view is capped.
pub const ARCHIVE_CAP: usize = 100;

/// `s` after archiving `it`: appended at the (newest) end, then the oldest
/// entry dropped if the cap is passed.
pub open spec fn archive_push(s: Seq<ReviewItem>, it: ReviewItem) -> Seq<ReviewItem> {
    let t = s.push(it);
    if t.len() > ARCHIVE_CAP {
        t.skip(1)
    } else {
        t
    }
}

/// The page `[offset, offset + limit)` of the newest-first reading of `s`,
/// clipped to what is available; an out-of-range offset gives an empty
/// page.
pub open spec fn page_of(s: Seq<ReviewItem>, limit: int, offset: int) -> Seq<ReviewItem>
    recommends
        0 <= limit,
        0 <= offset,
{
    let rev = s.reverse();
    let lo = if offset < rev.len() {
        offset
    } else {
        rev.len() as int
    };
    let hi = if offset + limit < rev.len() {
        offset + limit
    } else {
        rev.len() as int
    };
    rev.subrange(lo, hi)
}

/// The bounded completed list. Oldest first; never longer than the cap.
pub struct CompletedArchive {
    pub items: Vec<ReviewItem>,
}

impl View for CompletedArchive {
    type V = Seq<ReviewItem>;

    open spec fn view(&self) -> Seq<ReviewItem> {
        self.items@
    }
}

impl CompletedArchive {
    /// The bound holds.
    pub open spec fn wf(&self) -> bool {
        self@.len() <= ARCHIVE_CAP
    }

    /// An empty archive.
    pub fn new() -> (s: Self)
        ensures
            s@ == Seq::<ReviewItem>::empty(),
            s.wf(),
    {
        CompletedArchive { items: Vec::new() }
    }

    /// Replays a durable log, oldest first, into the bounded list: the
    /// newest `ARCHIVE_CAP` entries stay, older ones fall away. A caller
    /// that found no log, or could not parse it, passes an empty vector.
    pub fn hydrate(log: Vec<ReviewItem>) -> (s: Self)
        ensures
            s.wf(),
            log@.len() <= ARCHIVE_CAP ==> s@ == log@,
            log@.len() > ARCHIVE_CAP ==> s@ == log@.skip(log@.len() - ARCHIVE_CAP),
    {
        let mut log = log;
        let ghost orig = log@;
        if log.len() > ARCHIVE_CAP {
            let tail = log.split_off(log.len() - ARCHIVE_CAP);
            proof {
                assert(tail@ =~= orig.skip(orig.len() - ARCHIVE_CAP));
            }
            CompletedArchive { items: tail }
        } else {
            CompletedArchive { items: log }
        }
    }

    /// How many completed items the bounded list holds.
    pub fn len(&self) -> (n: usize)
        ensures
            n == self@.len(),
    {
        self.items.len()
    }

    /// Archives `it` as the newest entry, dropping the oldest when the cap
    /// is passed.
    pub fn push(&mut self, it: ReviewItem)
        requires
            old(self).wf(),
        ensures
            final(self).wf(),
            final(self)@ == archive_push(old(self)@, it),
    {
        self.items.push(it);
        if self.items.len() > ARCHIVE_CAP {
            self.items.remove(0);
            proof {
                assert(old(self)@.push(it).remove(0) =~= old(self)@.push(it).skip(1));
            }
        }
    }

    /// Empties the bounded list; the caller deletes the durable log.
    pub fn clear(&mut self)
        ensures
            final(self)@ == Seq::<ReviewItem>::empty(),
            final(self).wf(),
    {
        self.items.clear();
    }

    /// The page `[offset, offset + limit)` of the newest-first view,
    /// clipped to what is available. Never errs on an out-of-range offset.
    pub fn page(&self, limit: usize, offset: usize) -> (r: Vec<ReviewItem>)
        ensures
            r@ == page_of(self@, limit as int, offset as int),
    {
        let n = self.items.len();
        let mut r: Vec<ReviewItem> = Vec::new();
        if offset >= n {
            proof {
                assert(r@ =~= page_of(self@, limit as int, offset as int));
            }
            return r;
        }
        let avail = n - offset;
        let count = if limit < avail {
            limit
        } else {
            avail
        };
        let mut i: usize = 0;
        while i < count
            invariant
                i <= count,
                n == self@.len(),
                offset < n,
                count <= n - offset,
                r@.len() == i as int,
                forall|j: int| 0 <= j < i ==> r@[j] == self@[n - 1 - offset - j],
            decreases count - i,
        {
            r.push(self.items[n - 1 - offset - i].clone());
            i = i + 1;
        }
        proof {
            let p = page_of(self@, limit as int, offset as int);
            assert(forall|j: int|
                0 <= j < p.len() ==> p[j] == self@.reverse()[offset + j]
                    && #[trigger] self@.reverse()[offset + j] == self@[n - 1 - offset - j]);
            assert(r@ =~= p);
        }
        r
    }
}

} // verus!
