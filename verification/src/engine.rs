//! The review-queue engine: one owned state object holding the pending
//! set, the completed archive and the sequencer, with the ingestion,
//! consumption, dismissal and deletion transitions. All clocks, file
//! contents and event sinks are the caller's: the engine takes instants
//! and stored text as plain values and returns what to persist.

use vstd::prelude::*;
use crate::archive::ARCHIVE_CAP;
use crate::archive::CompletedArchive;
use crate::archive::archive_push;
use crate::archive::page_of;
use crate::item::NotifyPayload;
use crate::item::ReviewItem;
use crate::item::has_tmux;
use crate::item::make_item;
use crate::item::same_triple;
use crate::sequencer::Sequencer;
use crate::store::QueueStore;
use crate::store::first_id_index;
use crate::store::has_id;
use crate::store::lemma_oldest_index_min;
use crate::store::lemma_without_id_absent;
use crate::store::lemma_without_triple_keeps_unique;
use crate::store::lemma_without_triple_push;
use crate::store::oldest_index;
use crate::store::unique_triples;
use crate::store::without_id;
use crate::store::without_triple;
use crate::text::counter_of;
use crate::text::spec_decimal;

verus! {

/// The whole coordinator state. One instance per running process; tests
/// may hold as many as they like.
pub struct ReviewEngine {
    pub pending: QueueStore,
    pub completed: CompletedArchive,
    pub sequencer: Sequencer,
}

impl ReviewEngine {
    /// The archive bound holds.
    pub open spec fn wf(&self) -> bool {
        self.completed.wf()
    }

    /// A fresh engine: nothing pending, nothing completed, counter at 1.
    pub fn new() -> (e: Self)
        ensures
            e.wf(),
            e.pending@ == Seq::<ReviewItem>::empty(),
            e.completed@ == Seq::<ReviewItem>::empty(),
            e.sequencer.counter == 1,
    {
        ReviewEngine {
            pending: QueueStore::new(),
            completed: CompletedArchive::new(),
            sequencer: Sequencer::new(),
        }
    }

    /// The state a startup load hands over: the parsed pending snapshot,
    /// the parsed durable completed log (oldest first), and the stored
    /// counter text. A caller that failed to read or parse a file passes
    /// an empty vector or no text; the engine then starts that part empty
    /// or at 1.
    pub fn restore(
        pending: Vec<ReviewItem>,
        completed_log: Vec<ReviewItem>,
        counter_text: Option<&str>,
    ) -> (e: Self)
        ensures
            e.wf(),
            e.pending@ == pending@,
            completed_log@.len() <= ARCHIVE_CAP ==> e.completed@ == completed_log@,
            completed_log@.len() > ARCHIVE_CAP ==> e.completed@ == completed_log@.skip(
                completed_log@.len() - ARCHIVE_CAP,
            ),
            e.sequencer.counter == match counter_text {
                Option::Some(text) => match counter_of(text@) {
                    Option::Some(v) => v,
                    Option::None => 1u64,
                },
                Option::None => 1u64,
            },
    {
        ReviewEngine {
            pending: QueueStore::load(pending),
            completed: CompletedArchive::hydrate(completed_log),
            sequencer: Sequencer::from_stored(counter_text),
        }
    }

    /// Accepts a validated payload arriving at `now_millis` /
    /// `now_secs`: removes every pending item at the payload's terminal
    /// coordinate (when it carries one), then appends the new item with a
    /// fresh sequence number, the arrival timestamp, and the
    /// arrival-derived id, which is returned.
    pub fn ingest(&mut self, payload: NotifyPayload, now_millis: u64, now_secs: u64) -> (id:
        String)
        requires
            old(self).wf(),
            old(self).sequencer.counter < u64::MAX,
        ensures
            final(self).wf(),
            id@ == spec_decimal(now_millis as nat),
            final(self).sequencer.counter == old(self).sequencer.counter + 1,
            final(self).completed@ == old(self).completed@,
            final(self).pending@.len() >= 1,
            ({
                let it = final(self).pending@.last();
                &&& it.id@ == spec_decimal(now_millis as nat)
                &&& it.seq == old(self).sequencer.counter
                &&& it.title == payload.title
                &&& it.project == payload.project
                &&& it.timestamp == now_secs
                &&& it.tmux_session == payload.tmux_session
                &&& it.tmux_window == payload.tmux_window
                &&& it.tmux_pane == payload.tmux_pane
                &&& it.session_id == payload.session_id
                &&& it.project_path == payload.project_path
                &&& final(self).pending@ == if has_tmux(it) {
                    without_triple(old(self).pending@, it).push(it)
                } else {
                    old(self).pending@.push(it)
                }
            }),
    {
        let seq = self.sequencer.next();
        let it = make_item(payload, seq, now_millis, now_secs);
        if it.carries_tmux() {
            self.pending.remove_same_triple(&it);
        }
        let id = it.id.clone();
        self.pending.append(it);
        id
    }

    /// The shortcut path: removes the pending item with minimal
    /// `timestamp` — among equal timestamps the one that arrived first —
    /// and archives it unchanged. Returns the item so the caller may
    /// attempt the terminal-focus action and persist; with nothing
    /// pending, nothing changes.
    pub fn consume_oldest(&mut self) -> (r: Option<ReviewItem>)
        requires
            old(self).wf(),
        ensures
            final(self).wf(),
            final(self).sequencer == old(self).sequencer,
            r is Some <==> old(self).pending@.len() > 0,
            old(self).pending@.len() == 0 ==> *final(self) == *old(self),
            old(self).pending@.len() > 0 ==> ({
                let idx = oldest_index(old(self).pending@);
                let it = old(self).pending@[idx];
                &&& r == Option::Some(it)
                &&& forall|i: int|
                    0 <= i < old(self).pending@.len() ==> it.timestamp <= (#[trigger] old(
                        self,
                    ).pending@[i]).timestamp
                &&& final(self).pending@ == old(self).pending@.remove(idx)
                &&& final(self).pending@.len() == old(self).pending@.len() - 1
                &&& final(self).completed@ == archive_push(old(self).completed@, it)
            }),
    {
        match self.pending.oldest() {
            Option::None => Option::None,
            Option::Some(i) => {
                proof {
                    lemma_oldest_index_min(self.pending@);
                }
                let it = self.pending.remove_at(i);
                self.completed.push(it.clone());
                Option::Some(it)
            },
        }
    }

    /// The menu path: removes the first pending item with the given id
    /// and archives it unchanged, returning it. An absent id changes
    /// nothing.
    pub fn consume_by_id(&mut self, id: &String) -> (r: Option<ReviewItem>)
        requires
            old(self).wf(),
        ensures
            final(self).wf(),
            final(self).sequencer == old(self).sequencer,
            r is Some <==> has_id(old(self).pending@, id@),
            !has_id(old(self).pending@, id@) ==> *final(self) == *old(self),
            has_id(old(self).pending@, id@) ==> ({
                let idx = first_id_index(old(self).pending@, id@);
                let it = old(self).pending@[idx];
                &&& 0 <= idx < old(self).pending@.len()
                &&& it.id@ == id@
                &&& r == Option::Some(it)
                &&& final(self).pending@ == old(self).pending@.remove(idx)
                &&& final(self).pending@.len() == old(self).pending@.len() - 1
                &&& final(self).completed@ == archive_push(old(self).completed@, it)
            }),
    {
        match self.pending.remove_by_id(id) {
            Option::None => Option::None,
            Option::Some(it) => {
                self.completed.push(it.clone());
                Option::Some(it)
            },
        }
    }

    /// The explicit-dismiss path: removes the first pending item with the
    /// given id, rewrites its `timestamp` to the dismissal instant, and
    /// archives the rewritten item, returning it. An absent id changes
    /// nothing.
    pub fn dismiss_by_id(&mut self, id: &String, now_secs: u64) -> (r: Option<ReviewItem>)
        requires
            old(self).wf(),
        ensures
            final(self).wf(),
            final(self).sequencer == old(self).sequencer,
            r is Some <==> has_id(old(self).pending@, id@),
            !has_id(old(self).pending@, id@) ==> *final(self) == *old(self),
            has_id(old(self).pending@, id@) ==> ({
                let idx = first_id_index(old(self).pending@, id@);
                let orig = old(self).pending@[idx];
                let archived = ReviewItem { timestamp: now_secs, ..orig };
                &&& 0 <= idx < old(self).pending@.len()
                &&& orig.id@ == id@
                &&& r == Option::Some(archived)
                &&& final(self).pending@ == old(self).pending@.remove(idx)
                &&& final(self).pending@.len() == old(self).pending@.len() - 1
                &&& final(self).completed@ == archive_push(old(self).completed@, archived)
            }),
    {
        match self.pending.remove_by_id(id) {
            Option::None => Option::None,
            Option::Some(it) => {
                let mut it = it;
                it.timestamp = now_secs;
                self.completed.push(it.clone());
                Option::Some(it)
            },
        }
    }

    /// The silent delete: removes every pending item with the given id,
    /// archiving nothing. An absent id changes nothing.
    pub fn delete_by_id(&mut self, id: &String)
        requires
            old(self).wf(),
        ensures
            final(self).wf(),
            final(self).pending@ == without_id(old(self).pending@, id@),
            !has_id(old(self).pending@, id@) ==> final(self).pending@ == old(self).pending@,
            final(self).completed@ == old(self).completed@,
            final(self).sequencer == old(self).sequencer,
    {
        self.pending.remove_all_by_id(id);
        proof {
            if !has_id(old(self).pending@, id@) {
                lemma_without_id_absent(old(self).pending@, id@);
            }
        }
    }

    /// How many items are pending.
    pub fn pending_size(&self) -> (n: usize)
        ensures
            n == self.pending@.len(),
    {
        self.pending.size()
    }

    /// How many completed items the bounded archive holds.
    pub fn completed_size(&self) -> (n: usize)
        ensures
            n == self.completed@.len(),
    {
        self.completed.len()
    }

    /// A copy of the pending set, in arrival order: what the endpoint
    /// reports and what the caller persists and broadcasts after every
    /// mutation.
    pub fn pending_snapshot(&self) -> (r: Vec<ReviewItem>)
        ensures
            r@ == self.pending@,
    {
        self.pending.snapshot()
    }

    /// A page of the completed archive, newest first; `limit` defaults to
    /// 50 and `offset` to 0. Out-of-range offsets give an empty page.
    pub fn completed_page(&self, limit: Option<usize>, offset: Option<usize>) -> (r: Vec<
        ReviewItem,
    >)
        ensures
            r@ == page_of(
                self.completed@,
                match limit {
                    Option::Some(l) => l as int,
                    Option::None => 50,
                },
                match offset {
                    Option::Some(o) => o as int,
                    Option::None => 0,
                },
            ),
    {
        let l = match limit {
            Option::Some(l) => l,
            Option::None => 50,
        };
        let o = match offset {
            Option::Some(o) => o,
            Option::None => 0,
        };
        self.completed.page(l, o)
    }

    /// Empties the completed archive; the caller deletes the durable log,
    /// so a later restart hydrates an empty archive.
    pub fn clear_completed(&mut self)
        ensures
            final(self).wf(),
            final(self).completed@ == Seq::<ReviewItem>::empty(),
            final(self).pending == old(self).pending,
            final(self).sequencer == old(self).sequencer,
    {
        self.completed.clear();
    }
}

/// Ingesting at an occupied terminal coordinate leaves exactly one pending
/// item at that coordinate: the new one, at the end.
pub proof fn lemma_dedup_collapses(pre: Seq<ReviewItem>, it: ReviewItem)
    requires
        has_tmux(it),
    ensures
        ({
            let post = without_triple(pre, it).push(it);
            forall|i: int|
                0 <= i < post.len() ==> (same_triple(#[trigger] post[i], it) <==> i == post.len()
                    - 1)
        }),
{
    let kept = without_triple(pre, it);
    lemma_without_triple_members(pre, it);
    let post = kept.push(it);
    assert forall|i: int|
        0 <= i < post.len() implies (same_triple(#[trigger] post[i], it) <==> i == post.len()
        - 1) by {
        if i < post.len() - 1 {
            assert(post[i] == kept[i]);
        } else {
            assert(post[i] == it);
        }
    }
}

/// Ingestion preserves the pending invariant: a pending set with at most
/// one item per non-empty terminal coordinate still has at most one after
/// the dedup-then-append step, whether or not the new item carries a
/// coordinate.
pub proof fn lemma_ingest_preserves_unique_triples(pre: Seq<ReviewItem>, it: ReviewItem)
    requires
        unique_triples(pre),
    ensures
        has_tmux(it) ==> unique_triples(without_triple(pre, it).push(it)),
        !has_tmux(it) ==> unique_triples(pre.push(it)),
{
    if has_tmux(it) {
        lemma_without_triple_keeps_unique(pre, it);
        lemma_without_triple_members(pre, it);
        let kept = without_triple(pre, it);
        let post = kept.push(it);
        assert forall|i: int, j: int|
            0 <= i < j < post.len() implies !(has_tmux(#[trigger] post[i]) && same_triple(
            post[i],
            #[trigger] post[j],
        )) by {
            if j == post.len() - 1 {
                assert(post[i] == kept[i]);
                assert(post[j] == it);
                assert(!same_triple(kept[i], it));
            } else {
                assert(post[i] == kept[i]);
                assert(post[j] == kept[j]);
            }
        }
    } else {
        let post = pre.push(it);
        assert forall|i: int, j: int|
            0 <= i < j < post.len() implies !(has_tmux(#[trigger] post[i]) && same_triple(
            post[i],
            #[trigger] post[j],
        )) by {
            if j == post.len() - 1 {
                assert(post[i] == pre[i]);
                assert(post[j] == it);
            } else {
                assert(post[i] == pre[i]);
                assert(post[j] == pre[j]);
            }
        }
    }
}

/// Every item the dedup filter keeps sits at a different coordinate than
/// the probe.
pub proof fn lemma_without_triple_members(s: Seq<ReviewItem>, probe: ReviewItem)
    ensures
        forall|i: int|
            0 <= i < without_triple(s, probe).len() ==> !same_triple(
                #[trigger] without_triple(s, probe)[i],
                probe,
            ),
    decreases s.len(),
{
    reveal(Seq::filter);
    if s.len() > 0 {
        let head = s.drop_last();
        lemma_without_triple_members(head, probe);
        lemma_without_triple_push(head, probe, s.last());
        assert(head.push(s.last()) == s);
        let kept = without_triple(s, probe);
        let kept_head = without_triple(head, probe);
        if !same_triple(s.last(), probe) {
            assert(kept == kept_head.push(s.last()));
            assert(forall|i: int| 0 <= i < kept.len() - 1 ==> kept[i] == #[trigger] kept_head[i]);
        }
    }
}

} // verus!
