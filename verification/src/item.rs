//! The review item itself, the ingestion payload, and the terminal
//! coordinate triple that deduplication keys on.

use vstd::prelude::*;
use crate::text::spec_decimal;
use crate::text::u64_to_decimal;

verus! {

/// One "needs review" event. `seq` is durable and strictly increasing
/// across restarts; `id` is arrival-time-derived and best-effort unique;
/// `timestamp` is the arrival instant in seconds, rewritten to the
/// dismissal instant only on the explicit-dismiss path. The three `tmux_*`
/// fields are the routing coordinates deduplication keys on.
#[derive(Debug)]
pub struct ReviewItem {
    pub id: String,
    pub seq: u64,
    pub title: String,
    pub project: Option<String>,
    pub timestamp: u64,
    pub tmux_session: Option<String>,
    pub tmux_window: Option<String>,
    pub tmux_pane: Option<String>,
    pub session_id: Option<String>,
    pub project_path: Option<String>,
}

/// What a client hands the ingestion endpoint: a required title and
/// optional correlation labels and terminal coordinates. A request without
/// a title never reaches the engine; it is rejected at the boundary.
#[derive(Debug)]
pub struct NotifyPayload {
    pub title: String,
    pub project: Option<String>,
    pub project_path: Option<String>,
    pub session_id: Option<String>,
    pub tmux_session: Option<String>,
    pub tmux_window: Option<String>,
    pub tmux_pane: Option<String>,
}

/// Whether two optional labels carry the same text; absence only matches
/// absence.
pub open spec fn opt_text_eq(a: Option<String>, b: Option<String>) -> bool {
    match (a, b) {
        (Option::None, Option::None) => true,
        (Option::Some(x), Option::Some(y)) => x@ == y@,
        _ => false,
    }
}

/// Whether two items sit at the exact same terminal coordinate, field by
/// field; an absent field matches only an absent field.
pub open spec fn same_triple(a: ReviewItem, b: ReviewItem) -> bool {
    opt_text_eq(a.tmux_session, b.tmux_session) && opt_text_eq(a.tmux_window, b.tmux_window)
        && opt_text_eq(a.tmux_pane, b.tmux_pane)
}

/// Whether the item carries any terminal coordinate at all. Items without
/// any are never deduplicated against anything.
pub open spec fn has_tmux(it: ReviewItem) -> bool {
    it.tmux_session is Some || it.tmux_window is Some || it.tmux_pane is Some
}

/// Whether the item carries a complete terminal coordinate, the condition
/// for attempting the terminal-focus action on consumption.
pub open spec fn has_full_triple(it: ReviewItem) -> bool {
    it.tmux_session is Some && it.tmux_window is Some && it.tmux_pane is Some
}

/// Compares two optional labels by their text.
pub fn opt_eq(a: &Option<String>, b: &Option<String>) -> (r: bool)
    ensures
        r == opt_text_eq(*a, *b),
{
    match (a, b) {
        (Option::None, Option::None) => true,
        (Option::Some(x), Option::Some(y)) => x.eq(y),
        _ => false,
    }
}

/// Copies an optional label.
pub fn clone_opt(s: &Option<String>) -> (r: Option<String>)
    ensures
        r == *s,
{
    match s {
        Option::Some(x) => Option::Some(x.clone()),
        Option::None => Option::None,
    }
}

impl Clone for ReviewItem {
    /// An exact copy, field by field.
    fn clone(&self) -> (r: Self)
        ensures
            r == *self,
    {
        ReviewItem {
            id: self.id.clone(),
            seq: self.seq,
            title: self.title.clone(),
            project: clone_opt(&self.project),
            timestamp: self.timestamp,
            tmux_session: clone_opt(&self.tmux_session),
            tmux_window: clone_opt(&self.tmux_window),
            tmux_pane: clone_opt(&self.tmux_pane),
            session_id: clone_opt(&self.session_id),
            project_path: clone_opt(&self.project_path),
        }
    }
}

impl ReviewItem {
    /// Whether this item sits at the same terminal coordinate as `other`.
    pub fn matches_triple(&self, other: &ReviewItem) -> (r: bool)
        ensures
            r == same_triple(*self, *other),
    {
        opt_eq(&self.tmux_session, &other.tmux_session) && opt_eq(
            &self.tmux_window,
            &other.tmux_window,
        ) && opt_eq(&self.tmux_pane, &other.tmux_pane)
    }

    /// Whether this item carries any terminal coordinate.
    pub fn carries_tmux(&self) -> (r: bool)
        ensures
            r == has_tmux(*self),
    {
        self.tmux_session.is_some() || self.tmux_window.is_some() || self.tmux_pane.is_some()
    }

    /// Whether this item carries a complete terminal coordinate.
    pub fn carries_full_triple(&self) -> (r: bool)
        ensures
            r == has_full_triple(*self),
    {
        self.tmux_session.is_some() && self.tmux_window.is_some() && self.tmux_pane.is_some()
    }

    /// Whether this item's id reads `id`.
    pub fn id_is(&self, id: &String) -> (r: bool)
        ensures
            r == (self.id@ == id@),
    {
        self.id.eq(id)
    }
}

/// Builds the item for an accepted payload: the id is the arrival instant
/// in milliseconds rendered in decimal, the timestamp the arrival instant
/// in seconds, and the sequence number whatever the sequencer issued.
pub fn make_item(payload: NotifyPayload, seq: u64, now_millis: u64, now_secs: u64) -> (it:
    ReviewItem)
    ensures
        it.id@ == spec_decimal(now_millis as nat),
        it.seq == seq,
        it.title == payload.title,
        it.project == payload.project,
        it.timestamp == now_secs,
        it.tmux_session == payload.tmux_session,
        it.tmux_window == payload.tmux_window,
        it.tmux_pane == payload.tmux_pane,
        it.session_id == payload.session_id,
        it.project_path == payload.project_path,
{
    ReviewItem {
        id: u64_to_decimal(now_millis),
        seq: seq,
        title: payload.title,
        project: payload.project,
        timestamp: now_secs,
        tmux_session: payload.tmux_session,
        tmux_window: payload.tmux_window,
        tmux_pane: payload.tmux_pane,
        session_id: payload.session_id,
        project_path: payload.project_path,
    }
}

} // verus!
