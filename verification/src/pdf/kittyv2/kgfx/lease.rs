//! Who removes a region of shared memory.
use vstd::prelude::*;
use vstd::string::*;

use super::tracker::{
    law_young_regions_stay, EntryView, LifecycleTracker, Registered, TrackerView,
};
use crate::text;

verus! {

/// A region of shared memory that belongs to whoever holds the lease, until it is handed to the
/// tracker.
#[derive(Debug)]
pub struct ShmLease {
    path: String,
    size: usize,
    cleanup_on_drop: bool,
}

/// A region of shared memory, and whether the lease still answers for it.
pub struct LeaseView {
    pub path: Seq<char>,
    pub size: usize,
    pub owned: bool,
}

impl View for ShmLease {
    type V = LeaseView;

    closed spec fn view(&self) -> LeaseView {
        LeaseView { path: self.path@, size: self.size, owned: self.cleanup_on_drop }
    }
}

impl ShmLease {
    /// A lease that answers for a region.
    pub fn new(path: String, size: usize) -> (r: Self)
        ensures
            r@ == (LeaseView { path: path@, size, owned: true }),
    {
        ShmLease { path, size, cleanup_on_drop: true }
    }

    /// The path of the region.
    pub fn path(&self) -> (r: &str)
        ensures
            r@ == self@.path,
    {
        self.path.as_str()
    }

    /// The size of the region.
    pub fn size(&self) -> (r: usize)
        ensures
            r == self@.size,
    {
        self.size
    }

    /// Hands the region to the tracker, which answers for it from now on.
    pub fn handoff_to_tracker(self, position: i64, tracker: &mut LifecycleTracker, now: u64) -> (r:
        Registered)
        ensures
            ({
                let entry = EntryView { path: self@.path, size: self@.size, position, created: now };
                &&& final(tracker)@ == old(tracker)@.with(entry)
                &&& text::texts(r.removed@) == old(tracker)@.cleaned(entry).removed
                &&& r.stats == (if old(tracker)@.report_due(now) {
                    Some(final(tracker)@.stats())
                } else {
                    None
                })
            }),
    {
        tracker.register(self.path, self.size, position, now)
    }

    /// The path to remove when the lease ends without a hand-off.
    pub fn released(self) -> (r: Option<String>)
        ensures
            text::option_view(r) == (if self@.owned && self@.path.len() > 0 {
                Some(self@.path)
            } else {
                None
            }),
    {
        let cs = text::chars_of(self.path.as_str());
        if self.cleanup_on_drop && cs.len() > 0 {
            Some(self.path)
        } else {
            None
        }
    }
}

/// A region that was handed over is tracked: it is not among those that are removed at once.
pub proof fn law_handed_over_region_is_tracked(
    lease: LeaseView,
    position: i64,
    tracker: TrackerView,
    now: u64,
)
    ensures
        ({
            let entry = EntryView { path: lease.path, size: lease.size, position, created: now };
            tracker.with(entry).queue.contains(entry)
        }),
{
    let entry = EntryView { path: lease.path, size: lease.size, position, created: now };
    assert(tracker.queue.push(entry)[tracker.queue.len() as int] == entry);
    law_young_regions_stay(tracker, entry, entry);
}

} // verus!
