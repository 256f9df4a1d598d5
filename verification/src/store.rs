//! The pending-item store: an ordered in-memory set of review items with
//! the membership operations the engine needs — append, remove by id,
//! remove every item at a terminal coordinate, snapshot, and locating the
//! oldest item.

use vstd::prelude::*;
use crate::item::ReviewItem;
use crate::item::has_tmux;
use crate::item::same_triple;

verus! {

/// Whether some item of `s` has the id `id`.
pub open spec fn has_id(s: Seq<ReviewItem>, id: Seq<char>) -> bool {
    exists|i: int| 0 <= i < s.len() && (#[trigger] s[i]).id@ == id
}

/// The first position of `s` holding the id `id` (the length when none
/// does).
pub open spec fn first_id_index(s: Seq<ReviewItem>, id: Seq<char>) -> int
    decreases s.len(),
{
    if s.len() == 0 {
        0
    } else if s.first().id@ == id {
        0
    } else {
        1 + first_id_index(s.drop_first(), id)
    }
}

/// A position that matches, with nothing matching before it, is the first
/// matching position.
pub proof fn lemma_first_id_index(s: Seq<ReviewItem>, id: Seq<char>, i: int)
    requires
        0 <= i < s.len(),
        s[i].id@ == id,
        forall|j: int| 0 <= j < i ==> (#[trigger] s[j]).id@ != id,
    ensures
        first_id_index(s, id) == i,
    decreases i,
{
    if i > 0 {
        let t = s.drop_first();
        assert(forall|j: int| 0 <= j < i - 1 ==> (#[trigger] t[j]).id@ != id) by {
            assert(forall|j: int| 0 <= j < i - 1 ==> (#[trigger] t[j]) == s[j + 1]);
        }
        assert(t[i - 1] == s[i]);
        lemma_first_id_index(t, id, i - 1);
    }
}

/// `s` without every item sitting at `probe`'s terminal coordinate, in
/// order.
pub open spec fn without_triple(s: Seq<ReviewItem>, probe: ReviewItem) -> Seq<ReviewItem> {
    s.filter(|x: ReviewItem| !same_triple(x, probe))
}

/// `s` without every item whose id is `id`, in order.
pub open spec fn without_id(s: Seq<ReviewItem>, id: Seq<char>) -> Seq<ReviewItem> {
    s.filter(|x: ReviewItem| x.id@ != id)
}

/// How dropping matching items commutes with appending one item.
pub proof fn lemma_without_triple_push(s: Seq<ReviewItem>, probe: ReviewItem, x: ReviewItem)
    ensures
        same_triple(x, probe) ==> without_triple(s.push(x), probe) == without_triple(s, probe),
        !same_triple(x, probe) ==> without_triple(s.push(x), probe) == without_triple(
            s,
            probe,
        ).push(x),
{
    reveal(Seq::filter);
    let t = s.push(x);
    assert(t.drop_last() == s);
    assert(t.last() == x);
}

/// How dropping one id commutes with appending one item.
pub proof fn lemma_without_id_push(s: Seq<ReviewItem>, id: Seq<char>, x: ReviewItem)
    ensures
        x.id@ == id ==> without_id(s.push(x), id) == without_id(s, id),
        x.id@ != id ==> without_id(s.push(x), id) == without_id(s, id).push(x),
{
    reveal(Seq::filter);
    let t = s.push(x);
    assert(t.drop_last() == s);
    assert(t.last() == x);
}

/// Dropping an id nothing carries changes nothing.
pub proof fn lemma_without_id_absent(s: Seq<ReviewItem>, id: Seq<char>)
    requires
        !has_id(s, id),
    ensures
        without_id(s, id) == s,
    decreases s.len(),
{
    if s.len() == 0 {
        reveal(Seq::filter);
    } else {
        let head = s.drop_last();
        assert(!has_id(head, id)) by {
            assert(forall|j: int| 0 <= j < head.len() ==> (#[trigger] head[j]) == s[j]);
        }
        lemma_without_id_absent(head, id);
        lemma_without_id_push(head, id, s.last());
        assert(head.push(s.last()) == s);
        assert(s.last().id@ != id) by {
            assert(s[s.len() - 1] == s.last());
        }
    }
}

/// At most one item per non-empty terminal coordinate: no two positions
/// hold items at the same coordinate when either carries one.
pub open spec fn unique_triples(s: Seq<ReviewItem>) -> bool {
    forall|i: int, j: int|
        0 <= i < j < s.len() ==> !(has_tmux(#[trigger] s[i]) && same_triple(s[i], #[trigger] s[j]))
}

/// Every item the dedup filter keeps was pending before.
pub proof fn lemma_without_triple_subset(s: Seq<ReviewItem>, probe: ReviewItem)
    ensures
        forall|i: int|
            0 <= i < without_triple(s, probe).len() ==> s.contains(
                #[trigger] without_triple(s, probe)[i],
            ),
    decreases s.len(),
{
    reveal(Seq::filter);
    if s.len() > 0 {
        let head = s.drop_last();
        lemma_without_triple_subset(head, probe);
        lemma_without_triple_push(head, probe, s.last());
        assert(head.push(s.last()) == s);
        let kept = without_triple(s, probe);
        let kept_head = without_triple(head, probe);
        assert(forall|k: int| 0 <= k < head.len() ==> (#[trigger] head[k]) == s[k]);
        assert(forall|k: int|
            0 <= k < head.len() && head.contains(#[trigger] head[k]) ==> s.contains(head[k]));
        if !same_triple(s.last(), probe) {
            assert(kept == kept_head.push(s.last()));
            assert(forall|i: int| 0 <= i < kept.len() - 1 ==> kept[i] == #[trigger] kept_head[i]);
            assert(s.contains(s.last())) by {
                assert(s[s.len() - 1] == s.last());
            }
        }
    }
}

/// Removing every item at one coordinate never makes two remaining items
/// share a coordinate: the dedup step preserves coordinate uniqueness.
pub proof fn lemma_without_triple_keeps_unique(s: Seq<ReviewItem>, probe: ReviewItem)
    requires
        unique_triples(s),
    ensures
        unique_triples(without_triple(s, probe)),
    decreases s.len(),
{
    reveal(Seq::filter);
    if s.len() > 0 {
        let head = s.drop_last();
        assert(forall|k: int| 0 <= k < head.len() ==> (#[trigger] head[k]) == s[k]);
        assert(unique_triples(head));
        lemma_without_triple_keeps_unique(head, probe);
        lemma_without_triple_push(head, probe, s.last());
        lemma_without_triple_subset(head, probe);
        assert(head.push(s.last()) == s);
        let kept = without_triple(s, probe);
        let kept_head = without_triple(head, probe);
        if !same_triple(s.last(), probe) {
            assert(kept == kept_head.push(s.last()));
            assert(forall|i: int| 0 <= i < kept.len() - 1 ==> kept[i] == #[trigger] kept_head[i]);
            assert(kept[kept.len() - 1] == s.last());
            assert forall|i: int, j: int|
                0 <= i < j < kept.len() implies !(has_tmux(#[trigger] kept[i]) && same_triple(
                kept[i],
                #[trigger] kept[j],
            )) by {
                if j == kept.len() - 1 {
                    let x = kept_head[i];
                    assert(head.contains(x));
                    let k = choose|k: int| 0 <= k < head.len() && head[k] == x;
                    assert(s[k] == x);
                    assert(!(has_tmux(s[k]) && same_triple(s[k], s[s.len() - 1])));
                }
            }
        }
    }
}

/// The position of the first item with minimal timestamp (0 when empty).
pub open spec fn oldest_index(s: Seq<ReviewItem>) -> int
    decreases s.len(),
{
    if s.len() <= 1 {
        0
    } else {
        let best = oldest_index(s.drop_last());
        if s.last().timestamp < s[best].timestamp {
            s.len() - 1
        } else {
            best
        }
    }
}

/// The oldest position is in range, holds a minimal timestamp, and is the
/// first position doing so.
pub proof fn lemma_oldest_index_min(s: Seq<ReviewItem>)
    requires
        s.len() > 0,
    ensures
        0 <= oldest_index(s) < s.len(),
        forall|i: int|
            0 <= i < s.len() ==> s[oldest_index(s)].timestamp <= (#[trigger] s[i]).timestamp,
        forall|i: int|
            0 <= i < oldest_index(s) ==> s[oldest_index(s)].timestamp < (#[trigger] s[i]).timestamp,
    decreases s.len(),
{
    if s.len() > 1 {
        let head = s.drop_last();
        lemma_oldest_index_min(head);
        let bh = oldest_index(head);
        assert(forall|j: int| 0 <= j < head.len() ==> (#[trigger] s[j]) == head[j]);
        assert(s.last() == s[s.len() - 1]);
        if s.last().timestamp < s[bh].timestamp {
            assert(oldest_index(s) == s.len() - 1);
            assert forall|i: int| 0 <= i < s.len() implies s[oldest_index(s)].timestamp <= (
            #[trigger] s[i]).timestamp by {
                if i < s.len() - 1 {
                    assert(head[bh].timestamp <= head[i].timestamp);
                }
            }
            assert forall|i: int| 0 <= i < oldest_index(s) implies s[oldest_index(s)].timestamp < (
            #[trigger] s[i]).timestamp by {
                assert(head[bh].timestamp <= head[i].timestamp);
            }
        } else {
            assert(oldest_index(s) == bh);
            assert forall|i: int| 0 <= i < s.len() implies s[oldest_index(s)].timestamp <= (
            #[trigger] s[i]).timestamp by {
                if i < s.len() - 1 {
                    assert(head[bh].timestamp <= head[i].timestamp);
                }
            }
            assert forall|i: int| 0 <= i < oldest_index(s) implies s[oldest_index(s)].timestamp < (
            #[trigger] s[i]).timestamp by {
                assert(head[bh].timestamp < head[i].timestamp);
            }
        }
    }
}

/// The in-memory pending set. Order of arrival is kept; every mutation's
/// caller is expected to persist a fresh snapshot.
pub struct QueueStore {
    pub items: Vec<ReviewItem>,
}

impl View for QueueStore {
    type V = Seq<ReviewItem>;

    open spec fn view(&self) -> Seq<ReviewItem> {
        self.items@
    }
}

impl QueueStore {
    /// An empty pending set.
    pub fn new() -> (s: Self)
        ensures
            s@ == Seq::<ReviewItem>::empty(),
    {
        QueueStore { items: Vec::new() }
    }

    /// The pending set a startup load hands over; a caller that failed to
    /// read or parse the snapshot passes an empty vector.
    pub fn load(items: Vec<ReviewItem>) -> (s: Self)
        ensures
            s@ == items@,
    {
        QueueStore { items }
    }

    /// How many items are pending.
    pub fn size(&self) -> (n: usize)
        ensures
            n == self@.len(),
    {
        self.items.len()
    }

    /// Appends `it` at the end.
    pub fn append(&mut self, it: ReviewItem)
        ensures
            final(self)@ == old(self)@.push(it),
    {
        self.items.push(it);
    }

    /// A copy of the whole pending set, in order.
    pub fn snapshot(&self) -> (r: Vec<ReviewItem>)
        ensures
            r@ == self@,
    {
        let n = self.items.len();
        let mut r: Vec<ReviewItem> = Vec::new();
        let mut i: usize = 0;
        while i < n
            invariant
                i <= n,
                n == self@.len(),
                r@ =~= self@.take(i as int),
            decreases n - i,
        {
            r.push(self.items[i].clone());
            proof {
                assert(r@ =~= self@.take(i + 1));
            }
            i = i + 1;
        }
        proof {
            assert(self@.take(n as int) =~= self@);
        }
        r
    }

    /// Removes the item at `i` and returns it.
    pub fn remove_at(&mut self, i: usize) -> (r: ReviewItem)
        requires
            i < old(self)@.len(),
        ensures
            r == old(self)@[i as int],
            final(self)@ == old(self)@.remove(i as int),
    {
        self.items.remove(i)
    }

    /// Removes the first item whose id is `id`, if any; an absent id
    /// changes nothing.
    pub fn remove_by_id(&mut self, id: &String) -> (r: Option<ReviewItem>)
        ensures
            r is Some <==> has_id(old(self)@, id@),
            !has_id(old(self)@, id@) ==> *final(self) == *old(self),
            has_id(old(self)@, id@) ==> ({
                let idx = first_id_index(old(self)@, id@);
                &&& 0 <= idx < old(self)@.len()
                &&& old(self)@[idx].id@ == id@
                &&& r == Option::Some(old(self)@[idx])
                &&& final(self)@ == old(self)@.remove(idx)
            }),
    {
        let n = self.items.len();
        let mut i: usize = 0;
        while i < n
            invariant
                i <= n,
                n == self@.len(),
                *self == *old(self),
                forall|j: int| 0 <= j < i ==> (#[trigger] self@[j]).id@ != id@,
            decreases n - i,
        {
            if self.items[i].id_is(id) {
                proof {
                    lemma_first_id_index(self@, id@, i as int);
                }
                let it = self.items.remove(i);
                return Option::Some(it);
            }
            i = i + 1;
        }
        proof {
            assert(!has_id(old(self)@, id@));
        }
        Option::None
    }

    /// Removes every item whose id is `id`; an absent id changes nothing.
    pub fn remove_all_by_id(&mut self, id: &String)
        ensures
            final(self)@ == without_id(old(self)@, id@),
    {
        let mut kept: Vec<ReviewItem> = Vec::new();
        let n = self.items.len();
        let mut i: usize = 0;
        proof {
            reveal(Seq::filter);
            assert(old(self)@.take(0) =~= Seq::<ReviewItem>::empty());
        }
        while i < n
            invariant
                i <= n,
                n == self@.len(),
                *self == *old(self),
                kept@ == without_id(old(self)@.take(i as int), id@),
            decreases n - i,
        {
            proof {
                assert(old(self)@.take(i + 1) == old(self)@.take(i as int).push(
                    old(self)@[i as int],
                ));
                lemma_without_id_push(old(self)@.take(i as int), id@, old(self)@[i as int]);
            }
            if !self.items[i].id_is(id) {
                kept.push(self.items[i].clone());
            }
            i = i + 1;
        }
        proof {
            assert(old(self)@.take(n as int) =~= old(self)@);
        }
        self.items = kept;
    }

    /// Removes every item at `probe`'s terminal coordinate; items at other
    /// coordinates, and items without any, stay.
    pub fn remove_same_triple(&mut self, probe: &ReviewItem)
        ensures
            final(self)@ == without_triple(old(self)@, *probe),
    {
        let mut kept: Vec<ReviewItem> = Vec::new();
        let n = self.items.len();
        let mut i: usize = 0;
        proof {
            reveal(Seq::filter);
            assert(old(self)@.take(0) =~= Seq::<ReviewItem>::empty());
        }
        while i < n
            invariant
                i <= n,
                n == self@.len(),
                *self == *old(self),
                kept@ == without_triple(old(self)@.take(i as int), *probe),
            decreases n - i,
        {
            proof {
                assert(old(self)@.take(i + 1) == old(self)@.take(i as int).push(
                    old(self)@[i as int],
                ));
                lemma_without_triple_push(old(self)@.take(i as int), *probe, old(self)@[i as int]);
            }
            if !self.items[i].matches_triple(probe) {
                kept.push(self.items[i].clone());
            }
            i = i + 1;
        }
        proof {
            assert(old(self)@.take(n as int) =~= old(self)@);
        }
        self.items = kept;
    }

    /// The position of the first pending item with minimal timestamp, or
    /// nothing when the set is empty.
    pub fn oldest(&self) -> (r: Option<usize>)
        ensures
            r is Some <==> self@.len() > 0,
            r is Some ==> r->0 as int == oldest_index(self@) && r->0 < self@.len(),
    {
        oldest_of(&self.items)
    }
}

/// The position of the first item of `items` with minimal timestamp, or
/// nothing when there is none.
pub fn oldest_of(items: &Vec<ReviewItem>) -> (r: Option<usize>)
    ensures
        r is Some <==> items@.len() > 0,
        r is Some ==> r->0 as int == oldest_index(items@) && r->0 < items@.len(),
{
    let n = items.len();
    if n == 0 {
        return Option::None;
    }
    let mut best: usize = 0;
    let mut i: usize = 1;
    proof {
        assert(items@.take(1).len() == 1);
        assert(oldest_index(items@.take(1)) == 0);
    }
    while i < n
        invariant
            1 <= i <= n,
            n == items@.len(),
            best < i,
            best as int == oldest_index(items@.take(i as int)),
        decreases n - i,
    {
        proof {
            let pre = items@.take(i as int);
            let cur = items@.take(i + 1);
            assert(cur.drop_last() == pre);
            assert(cur.last() == items@[i as int]);
            assert(forall|j: int| 0 <= j < pre.len() ==> (#[trigger] pre[j]) == cur[j]);
            lemma_oldest_index_min(pre);
        }
        if items[i].timestamp < items[best].timestamp {
            best = i;
        }
        i = i + 1;
    }
    proof {
        assert(items@.take(n as int) =~= items@);
    }
    Option::Some(best)
}

} // verus!
