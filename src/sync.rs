//! When to poll the remote data source, and where each collection lives.
use vstd::prelude::*;

verus! {

/// Time between two polls, in milliseconds.
pub const POLL_INTERVAL_MS: u64 = 5000;

/// The collections that a poll fetches, each with its own request.
#[derive(Clone, Copy, Debug, PartialEq, Eq, Structural)]
pub enum Collection {
    Projects,
    Nodes,
    Edges,
    NodeMetadata,
    EdgeMetadata,
}

impl Collection {
    /// The path of the collection below the server address.
    pub fn path(&self) -> (r: &'static str)
        ensures
            *self is Projects ==> r@ == "/project"@,
            *self is Nodes ==> r@ == "/node"@,
            *self is Edges ==> r@ == "/edge"@,
            *self is NodeMetadata ==> r@ == "/node/metadata"@,
            *self is EdgeMetadata ==> r@ == "/edge/metadata"@,
    {
        match self {
            Collection::Projects => "/project",
            Collection::Nodes => "/node",
            Collection::Edges => "/edge",
            Collection::NodeMetadata => "/node/metadata",
            Collection::EdgeMetadata => "/edge/metadata",
        }
    }
}

/// Every collection, in the order a poll requests them.
pub fn all_collections() -> (r: Vec<Collection>)
    ensures
        r@ == seq![
            Collection::Projects,
            Collection::Nodes,
            Collection::Edges,
            Collection::NodeMetadata,
            Collection::EdgeMetadata,
        ],
{
    let r = vec![
        Collection::Projects,
        Collection::Nodes,
        Collection::Edges,
        Collection::NodeMetadata,
        Collection::EdgeMetadata,
    ];
    assert(r@ =~= seq![
        Collection::Projects,
        Collection::Nodes,
        Collection::Edges,
        Collection::NodeMetadata,
        Collection::EdgeMetadata,
    ]);
    r
}

/// The fixed-interval poll timer.
pub struct PollSchedule {
    /// Uptime in milliseconds at which the next poll is due.
    pub next_due_ms: u64,
}

impl PollSchedule {
    /// A schedule whose first poll is due at once.
    pub fn new() -> (r: PollSchedule)
        ensures
            r.next_due_ms == 0,
    {
        PollSchedule { next_due_ms: 0 }
    }

    /// Whether a poll is due at uptime `now_ms`; when it is, the next one is
    /// scheduled a full interval later.
    pub fn poll_due(&mut self, now_ms: u64) -> (due: bool)
        ensures
            due == (now_ms >= old(self).next_due_ms),
            due ==> final(self).next_due_ms == if now_ms + POLL_INTERVAL_MS > u64::MAX {
                u64::MAX as int
            } else {
                now_ms + POLL_INTERVAL_MS
            },
            !due ==> *final(self) == *old(self),
    {
        if now_ms >= self.next_due_ms {
            self.next_due_ms = now_ms.saturating_add(POLL_INTERVAL_MS);
            true
        } else {
            false
        }
    }
}

} // verus!
