//! The summary projection: the bounded, ordered display list a tray-style
//! renderer shows. A pure function of the pending snapshot: with nothing
//! pending one disabled placeholder; otherwise up to ten entries ascending
//! by timestamp, each labeled with the sequence number and the truncated
//! title, plus one disabled overflow entry when more items are pending.

use vstd::prelude::*;
use vstd::string::*;
use vstd::seq_lib::group_to_multiset_ensures;
use vstd::multiset::Multiset;
use crate::item::ReviewItem;
use crate::store::lemma_oldest_index_min;
use crate::store::oldest_index;
use crate::store::oldest_of;
use crate::text::spec_decimal;
use crate::text::spec_truncate;
use crate::text::truncate_str;
use crate::text::u64_to_decimal;

verus! {

/// How many items the summary shows before it collapses the rest into one
/// overflow entry.
pub const SUMMARY_MAX: usize = 10;

/// How many characters of a title the summary shows.
pub const TITLE_MAX: usize = 30;

/// One display entry: a key for routing a click, a label, and whether the
/// entry is clickable at all (the placeholder and the overflow entry are
/// not).
pub struct SummaryEntry {
    pub key: String,
    pub label: String,
    pub enabled: bool,
}

/// Whether timestamps never decrease along `s`.
pub open spec fn sorted_by_ts(s: Seq<ReviewItem>) -> bool {
    forall|i: int, j: int|
        0 <= i <= j < s.len() ==> (#[trigger] s[i]).timestamp <= (#[trigger] s[j]).timestamp
}

/// `s` reordered ascending by timestamp by repeatedly taking the first
/// item with minimal timestamp: the exact order the summary shows.
pub open spec fn spec_sort_by_ts(s: Seq<ReviewItem>) -> Seq<ReviewItem>
    decreases s.len(),
    via spec_sort_by_ts_decreases
{
    if s.len() == 0 {
        s
    } else {
        let i = oldest_index(s);
        seq![s[i]] + spec_sort_by_ts(s.remove(i))
    }
}

#[via_fn]
proof fn spec_sort_by_ts_decreases(s: Seq<ReviewItem>) {
    if s.len() > 0 {
        lemma_oldest_index_min(s);
    }
}

/// The items of `v` reordered ascending by timestamp; among equal
/// timestamps the earlier item comes first.
pub fn sort_by_timestamp(v: Vec<ReviewItem>) -> (r: Vec<ReviewItem>)
    ensures
        r@ == spec_sort_by_ts(v@),
        sorted_by_ts(r@),
        r@.to_multiset() == v@.to_multiset(),
        r@.len() == v@.len(),
{
    let mut src = v;
    let ghost orig = src@;
    let mut r: Vec<ReviewItem> = Vec::new();
    proof {
        broadcast use group_to_multiset_ensures;

        assert(r@.to_multiset().add(src@.to_multiset()) =~= orig.to_multiset());
        assert(r@ + spec_sort_by_ts(src@) =~= spec_sort_by_ts(orig));
    }
    while src.len() > 0
        invariant
            spec_sort_by_ts(orig) == r@ + spec_sort_by_ts(src@),
            r@.to_multiset().add(src@.to_multiset()) == orig.to_multiset(),
            sorted_by_ts(r@),
            forall|i: int, j: int|
                0 <= i < r@.len() && 0 <= j < src@.len() ==> (#[trigger] r@[i]).timestamp <= (
                #[trigger] src@[j]).timestamp,
        decreases src.len(),
    {
        let ghost r0 = r@;
        let ghost src0 = src@;
        proof {
            lemma_oldest_index_min(src@);
        }
        if let Option::Some(i) = oldest_of(&src) {
            let it = src.remove(i);
            r.push(it);
            proof {
                broadcast use group_to_multiset_ensures;

                assert(spec_sort_by_ts(src0) == seq![src0[i as int]] + spec_sort_by_ts(
                    src0.remove(i as int),
                ));
                assert(r@ =~= r0 + seq![it]);
                assert((r0 + seq![it]) + spec_sort_by_ts(src@) =~= r0 + (seq![it]
                    + spec_sort_by_ts(src@)));
                assert(r@.to_multiset().add(src@.to_multiset()) =~= orig.to_multiset());
                assert(forall|k: int| 0 <= k < r0.len() ==> (#[trigger] r@[k]) == r0[k]);
                assert(r@[r@.len() - 1] == it);
                assert forall|a: int, b: int|
                    0 <= a < r@.len() && 0 <= b < src@.len() implies (#[trigger] r@[a]).timestamp
                    <= (#[trigger] src@[b]).timestamp by {
                    if b < i {
                        assert(src@[b] == src0[b]);
                    } else {
                        assert(src@[b] == src0[b + 1]);
                    }
                }
            }
        }
    }
    proof {
        broadcast use group_to_multiset_ensures;

        assert(src@.to_multiset() =~= Multiset::<ReviewItem>::empty());
        assert(r@.to_multiset() =~= orig.to_multiset());
        assert(r@.len() == r@.to_multiset().len());
        assert(orig.len() == orig.to_multiset().len());
        assert(r@ + spec_sort_by_ts(src@) =~= r@);
    }
    r
}

/// The display label of one item: `#`, the sequence number, a space, and
/// the title cut to `TITLE_MAX` characters.
pub open spec fn label_of(it: ReviewItem) -> Seq<char> {
    seq!['#'] + spec_decimal(it.seq as nat) + seq![' '] + spec_truncate(
        it.title@,
        TITLE_MAX as int,
    )
}

/// The label of the overflow entry collapsing `extra` hidden items.
pub open spec fn more_label(extra: nat) -> Seq<char> {
    "... and "@ + spec_decimal(extra) + " more"@
}

/// Renders one item's display label.
pub fn make_label(it: &ReviewItem) -> (r: String)
    ensures
        r@ == label_of(*it),
{
    let mut s = String::new();
    s.append("#");
    let d = u64_to_decimal(it.seq);
    s.append(d.as_str());
    s.append(" ");
    let t = truncate_str(it.title.as_str(), TITLE_MAX);
    s.append(t.as_str());
    proof {
        reveal_strlit("#");
        reveal_strlit(" ");
        assert(s@ =~= label_of(*it));
    }
    s
}

/// Projects the timestamp-sorted pending snapshot onto display entries:
/// one disabled placeholder when nothing is pending; else one enabled
/// entry per item, in order, keyed by the item's id, capped at
/// `SUMMARY_MAX`, with one disabled overflow entry counting the rest.
pub fn summarize(sorted: &Vec<ReviewItem>) -> (r: Vec<SummaryEntry>)
    ensures
        sorted@.len() == 0 ==> r@.len() == 1 && r@[0].key@ == "empty"@ && r@[0].label@
            == "No messages"@ && !r@[0].enabled,
        0 < sorted@.len() <= SUMMARY_MAX ==> r@.len() == sorted@.len(),
        sorted@.len() > SUMMARY_MAX ==> r@.len() == SUMMARY_MAX + 1,
        forall|i: int|
            0 <= i < sorted@.len() && i < SUMMARY_MAX ==> (#[trigger] r@[i]).key@ == sorted@[i].id@
                && r@[i].label@ == label_of(sorted@[i]) && r@[i].enabled,
        sorted@.len() > SUMMARY_MAX ==> r@[SUMMARY_MAX as int].key@ == "more"@
            && r@[SUMMARY_MAX as int].label@ == more_label((sorted@.len() - SUMMARY_MAX) as nat)
            && !r@[SUMMARY_MAX as int].enabled,
{
    let n = sorted.len();
    let mut r: Vec<SummaryEntry> = Vec::new();
    if n == 0 {
        let key = String::new().concat("empty");
        let label = String::new().concat("No messages");
        r.push(SummaryEntry { key, label, enabled: false });
        proof {
            assert(r@[0].key@ =~= "empty"@);
            assert(r@[0].label@ =~= "No messages"@);
        }
        return r;
    }
    let shown = if n < SUMMARY_MAX {
        n
    } else {
        SUMMARY_MAX
    };
    let mut i: usize = 0;
    while i < shown
        invariant
            i <= shown,
            shown <= n,
            n == sorted@.len(),
            shown <= SUMMARY_MAX,
            r@.len() == i as int,
            forall|k: int|
                0 <= k < i ==> (#[trigger] r@[k]).key@ == sorted@[k].id@ && r@[k].label@
                    == label_of(sorted@[k]) && r@[k].enabled,
        decreases shown - i,
    {
        let it = &sorted[i];
        let key = it.id.clone();
        let label = make_label(it);
        r.push(SummaryEntry { key, label, enabled: true });
        i = i + 1;
    }
    if n > SUMMARY_MAX {
        let key = String::new().concat("more");
        let mut label = String::new();
        label.append("... and ");
        let d = u64_to_decimal((n - SUMMARY_MAX) as u64);
        label.append(d.as_str());
        label.append(" more");
        proof {
            reveal_strlit("... and ");
            reveal_strlit(" more");
            assert(label@ =~= more_label((sorted@.len() - SUMMARY_MAX) as nat));
        }
        r.push(SummaryEntry { key, label, enabled: false });
        proof {
            assert(r@[SUMMARY_MAX as int].key@ =~= "more"@);
        }
    }
    r
}

} // verus!
