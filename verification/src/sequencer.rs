//! The durable monotonic counter behind every item's `seq`. The counter
//! value is the next number to issue; after each issue the caller persists
//! the successor, so a restart never reissues a number that was already
//! handed out by an instance that persisted.

use vstd::prelude::*;
use crate::text::counter_of;
use crate::text::parse_counter;
use crate::text::spec_decimal;
use crate::text::u64_to_decimal;
use crate::text::lemma_decimal_round_trip;
use crate::text::trim_back;
use crate::text::trim_front;
use crate::text::decimal_value;

verus! {

/// One issue step: `v` was handed out and the counter moved past it.
pub open spec fn issues(pre: Sequencer, post: Sequencer, v: u64) -> bool {
    v == pre.counter && post.counter == pre.counter + 1
}

/// The durable monotonic counter. `counter` is the next value to issue.
pub struct Sequencer {
    pub counter: u64,
}

impl Sequencer {
    /// A fresh counter starting at 1.
    pub fn new() -> (s: Self)
        ensures
            s.counter == 1,
    {
        Sequencer { counter: 1 }
    }

    /// Restores the counter from the stored text, or starts at 1 when the
    /// store was absent or corrupt.
    pub fn from_stored(content: Option<&str>) -> (s: Self)
        ensures
            s.counter == match content {
                Option::Some(text) => match counter_of(text@) {
                    Option::Some(v) => v,
                    Option::None => 1u64,
                },
                Option::None => 1u64,
            },
    {
        match content {
            Option::Some(text) => match parse_counter(text) {
                Option::Some(v) => Sequencer { counter: v },
                Option::None => Sequencer { counter: 1 },
            },
            Option::None => Sequencer { counter: 1 },
        }
    }

    /// The next value to be issued, without issuing it.
    pub fn peek(&self) -> (v: u64)
        ensures
            v == self.counter,
    {
        self.counter
    }

    /// Issues the next value and moves the counter past it. The caller
    /// persists `stored_text()` before making the value visible. A crash
    /// between the issue and that write may reissue the value at the next
    /// start: an open, accepted risk of the store's design — gaps are
    /// fine, going backwards is not.
    pub fn next(&mut self) -> (v: u64)
        requires
            old(self).counter < u64::MAX,
        ensures
            issues(*old(self), *final(self), v),
            v == old(self).counter,
            final(self).counter == old(self).counter + 1,
    {
        let v = self.counter;
        self.counter = self.counter + 1;
        v
    }

    /// The text the durable store receives: the counter in decimal.
    pub fn stored_text(&self) -> (r: String)
        ensures
            r@ == spec_decimal(self.counter as nat),
    {
        u64_to_decimal(self.counter)
    }
}

/// Issued values grow strictly along any chain of issues.
pub proof fn lemma_issues_strictly_increasing(a: Sequencer, b: Sequencer, c: Sequencer, v1: u64, v2: u64)
    requires
        issues(a, b, v1),
        issues(b, c, v2),
    ensures
        v1 < v2,
{
}

/// A restart never reissues: after an issue step handed out `v`, the
/// successor counter is past `v`, and the text `stored_text` persists for
/// it restores to exactly that successor, so every later issue — in this
/// process or in one restarted from the store — is strictly greater.
pub proof fn lemma_restart_never_reissues(pre: Sequencer, post: Sequencer, v: u64)
    requires
        issues(pre, post, v),
    ensures
        counter_of(spec_decimal(post.counter as nat)) == Option::Some(post.counter),
        post.counter > v,
{
    lemma_stored_counter_round_trip(post.counter);
}

/// A counter stored with `stored_text` restores to the same value: a
/// restart continues exactly where the persisted instance stopped.
pub proof fn lemma_stored_counter_round_trip(c: u64)
    ensures
        counter_of(spec_decimal(c as nat)) == Option::Some(c),
{
    lemma_decimal_round_trip(c as nat);
    let s = spec_decimal(c as nat);
    assert(trim_front(s) == s);
    assert(trim_back(s) == s) by {
        assert(s[s.len() - 1] == s.last());
    }
    assert(decimal_value(s) <= u64::MAX as nat);
}

} // verus!
