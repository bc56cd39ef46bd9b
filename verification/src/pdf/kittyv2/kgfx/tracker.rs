//! Which regions of shared memory may be removed, and when.
//!
//! Regions that belong to pages around the current one are protected. Times are nanoseconds of one
//! clock that does not run backwards.
use std::collections::VecDeque;
use vstd::prelude::*;
use vstd::string::*;

use crate::text;

verus! {

/// How many regions may be there before the unprotected ones go.
pub const SOFT_LIMIT: usize = 20;

/// How many regions may be there before the oldest ones go, protected or not.
pub const HARD_LIMIT: usize = 40;

/// How old a region is before it goes.
pub const MIN_AGE: u64 = 1_000_000_000;

/// How old a region is before it goes though it is protected.
pub const FORCED_AGE: u64 = 5_000_000_000;

/// How far from the current position a region is protected.
pub const PROTECTION_RADIUS: i64 = 2;

/// How much time lies between two reports.
pub const LOG_INTERVAL: u64 = 10_000_000_000;

/// The time from `earlier` to `now`, none where `earlier` is later.
pub open spec fn since(now: u64, earlier: u64) -> int {
    if now > earlier {
        now - earlier
    } else {
        0
    }
}

/// The time from `earlier` to `now`, none where `earlier` is later.
pub fn duration_since(now: u64, earlier: u64) -> (r: u64)
    ensures
        r == since(now, earlier),
{
    if now > earlier {
        now - earlier
    } else {
        0
    }
}

/// A region that will be removed some day.
pub struct TrackerEntry {
    pub path: String,
    pub size: usize,
    pub position: i64,
    pub created: u64,
}

/// A region that will be removed some day.
pub struct EntryView {
    pub path: Seq<char>,
    pub size: usize,
    pub position: i64,
    pub created: u64,
}

impl View for TrackerEntry {
    type V = EntryView;

    open spec fn view(&self) -> EntryView {
        EntryView {
            path: self.path@,
            size: self.size,
            position: self.position,
            created: self.created,
        }
    }
}

/// The regions that a queue holds.
pub open spec fn entry_views(q: Seq<TrackerEntry>) -> Seq<EntryView> {
    q.map_values(|e: TrackerEntry| e@)
}

/// What a tracker knows.
pub struct TrackerView {
    /// The regions in the order in which they came.
    pub queue: Seq<EntryView>,
    pub total_size: usize,
    pub last_log: u64,
    pub position: i64,
}

/// Whether a region is protected.
pub open spec fn protected(position: i64, current: i64) -> bool {
    -PROTECTION_RADIUS <= position - current <= PROTECTION_RADIUS
}

/// The first region from `i` on that is not protected, or the end.
pub open spec fn first_unprotected(queue: Seq<EntryView>, current: i64, i: int) -> int
    decreases queue.len() - i,
{
    if i < 0 || i >= queue.len() || !protected(queue[i].position, current) {
        i
    } else {
        first_unprotected(queue, current, i + 1)
    }
}

/// A size taken from a total, never below nothing.
pub open spec fn less_by(total: usize, size: usize) -> usize {
    if total >= size {
        (total - size) as usize
    } else {
        0
    }
}

/// A queue in the middle of a clean-up.
pub struct Cleanup {
    pub queue: Seq<EntryView>,
    pub total_size: usize,
    /// The paths that were removed, the first one first.
    pub removed: Seq<Seq<char>>,
}

impl Cleanup {
    /// One region removed.
    pub open spec fn without(self, i: int) -> Cleanup {
        Cleanup {
            queue: self.queue.remove(i),
            total_size: less_by(self.total_size, self.queue[i].size),
            removed: self.removed.push(self.queue[i].path),
        }
    }

    /// Whether the soft limit removes one more: the first region without protection, if it is old
    /// enough.
    pub open spec fn soft_due(self, current: i64, now: u64) -> bool {
        let i = first_unprotected(self.queue, current, 0);
        self.queue.len() > SOFT_LIMIT && i < self.queue.len() && since(now, self.queue[i].created)
            >= MIN_AGE
    }

    /// What the soft limit leaves.
    pub open spec fn soft(self, current: i64, now: u64) -> Cleanup
        decreases self.queue.len(),
    {
        let i = first_unprotected(self.queue, current, 0);
        if self.soft_due(current, now) && 0 <= i {
            self.without(i).soft(current, now)
        } else {
            self
        }
    }

    /// Whether the hard limit removes one more: the oldest region, if it is old enough.
    pub open spec fn hard_due(self, now: u64) -> bool {
        self.queue.len() > HARD_LIMIT && since(now, self.queue[0].created) >= FORCED_AGE
    }

    /// What the hard limit leaves.
    pub open spec fn hard(self, now: u64) -> Cleanup
        decreases self.queue.len(),
    {
        if self.hard_due(now) {
            self.without(0).hard(now)
        } else {
            self
        }
    }
}

/// The number of protected regions among the first `n`.
pub open spec fn count_protected(queue: Seq<EntryView>, current: i64, n: nat) -> nat
    decreases n,
{
    if n == 0 || n > queue.len() {
        0
    } else {
        count_protected(queue, current, (n - 1) as nat) + (if protected(
            queue[n - 1].position,
            current,
        ) {
            1nat
        } else {
            0
        })
    }
}

/// A size added to a total, never above what a number holds.
pub open spec fn more_by(total: usize, size: usize) -> usize {
    if total + size <= usize::MAX {
        (total + size) as usize
    } else {
        usize::MAX
    }
}

impl TrackerView {
    /// The clean-up that follows a new region.
    pub open spec fn cleaned(self, entry: EntryView) -> Cleanup {
        let start = Cleanup {
            queue: self.queue.push(entry),
            total_size: more_by(self.total_size, entry.size),
            removed: Seq::empty(),
        };
        start.soft(self.position, entry.created).hard(entry.created)
    }

    /// Whether a report is due.
    pub open spec fn report_due(self, now: u64) -> bool {
        since(now, self.last_log) >= LOG_INTERVAL
    }

    /// The tracker after a new region came.
    pub open spec fn with(self, entry: EntryView) -> TrackerView {
        let c = self.cleaned(entry);
        TrackerView {
            queue: c.queue,
            total_size: c.total_size,
            last_log: if self.report_due(entry.created) {
                entry.created
            } else {
                self.last_log
            },
            position: self.position,
        }
    }

    /// What a report says.
    pub open spec fn stats(self) -> TrackerStats {
        TrackerStats {
            regions: self.queue.len() as usize,
            protected: count_protected(self.queue, self.position, self.queue.len()) as usize,
            total_size: self.total_size,
            position: self.position,
        }
    }
}

/// What a report says.
#[derive(Clone, Copy, Debug, PartialEq, Eq, Structural)]
pub struct TrackerStats {
    pub regions: usize,
    pub protected: usize,
    pub total_size: usize,
    pub position: i64,
}

/// What a new region leads to.
#[derive(Debug)]
pub struct Registered {
    /// The paths to remove, the first one first.
    pub removed: Vec<String>,
    /// The report that is due.
    pub stats: Option<TrackerStats>,
}

/// A line of a dump.
#[derive(Debug)]
pub struct EntryDump {
    pub protected: bool,
    pub position: i64,
    pub path: String,
    pub size: usize,
}

/// The state of a tracker for whoever looks for a fault.
#[derive(Debug)]
pub struct StateDump {
    pub position: i64,
    /// The first position that is protected.
    pub protected_min: i128,
    /// The last position that is protected.
    pub protected_max: i128,
    pub total_size: usize,
    pub entries: Vec<EntryDump>,
}

/// Whether a line of a dump describes a region.
pub open spec fn dumps(d: EntryDump, e: EntryView, current: i64) -> bool {
    &&& d.protected == protected(e.position, current)
    &&& d.position == e.position
    &&& d.path@ == e.path
    &&& d.size == e.size
}

/// Tracks regions of shared memory and says which may be removed.
pub struct LifecycleTracker {
    queue: VecDeque<TrackerEntry>,
    total_size: usize,
    last_log: u64,
    current_position: i64,
}

impl View for LifecycleTracker {
    type V = TrackerView;

    closed spec fn view(&self) -> TrackerView {
        TrackerView {
            queue: entry_views(self.queue@),
            total_size: self.total_size,
            last_log: self.last_log,
            position: self.current_position,
        }
    }
}

impl LifecycleTracker {
    /// A tracker without regions.
    pub fn new(now: u64) -> (r: Self)
        ensures
            r@ == (TrackerView {
                queue: Seq::empty(),
                total_size: 0,
                last_log: now,
                position: 0,
            }),
    {
        let r = LifecycleTracker {
            queue: VecDeque::new(),
            total_size: 0,
            last_log: now,
            current_position: 0,
        };
        assert(r@.queue =~= Seq::empty());
        r
    }

    /// Moves the current position: what is around it is protected.
    pub fn set_position(&mut self, position: i64)
        ensures
            final(self)@ == (TrackerView { position, ..old(self)@ }),
    {
        self.current_position = position;
    }

    /// The current position.
    pub fn position(&self) -> (r: i64)
        ensures
            r == self@.position,
    {
        self.current_position
    }

    /// Whether a region at a position is protected.
    pub fn is_protected(&self, position: i64) -> (r: bool)
        ensures
            r == protected(position, self@.position),
    {
        let d: i128 = position as i128 - self.current_position as i128;
        -(PROTECTION_RADIUS as i128) <= d && d <= PROTECTION_RADIUS as i128
    }

    /// Takes a new region, and says which regions are to be removed now.
    pub fn register(&mut self, path: String, size: usize, position: i64, now: u64) -> (r: Registered)
        ensures
            ({
                let entry = EntryView { path: path@, size, position, created: now };
                &&& final(self)@ == old(self)@.with(entry)
                &&& text::texts(r.removed@) == old(self)@.cleaned(entry).removed
                &&& r.stats == (if old(self)@.report_due(now) {
                    Some(final(self)@.stats())
                } else {
                    None
                })
            }),
    {
        let entry = TrackerEntry { path, size, position, created: now };
        let ghost before = self.queue@;
        self.queue.push_back(entry);
        self.total_size = self.total_size.saturating_add(size);
        proof {
            assert(entry_views(before.push(entry)) =~= entry_views(before).push(entry@));
        }
        let removed = self.cleanup_if_needed(now);
        let stats = self.maybe_log_stats(now);
        Registered { removed, stats }
    }

    fn take_out(&mut self, i: usize, removed: &mut Vec<String>)
        requires
            i < old(self).queue@.len(),
        ensures
            ({
                let c = Cleanup {
                    queue: old(self)@.queue,
                    total_size: old(self)@.total_size,
                    removed: text::texts(old(removed)@),
                }.without(i as int);
                &&& final(self)@ == (TrackerView {
                    queue: c.queue,
                    total_size: c.total_size,
                    ..old(self)@
                })
                &&& text::texts(final(removed)@) == c.removed
                &&& final(self).queue@.len() == old(self).queue@.len() - 1
            }),
    {
        let ghost before = self.queue@;
        let ghost paths = removed@;
        if let Some(entry) = self.queue.remove(i) {
            proof {
                assert(entry == before[i as int]);
                assert(entry_views(before.remove(i as int)) =~= entry_views(before).remove(
                    i as int,
                ));
                assert(entry_views(before)[i as int] == entry@);
                text::lemma_texts_push(paths, entry.path);
            }
            self.total_size = self.total_size.saturating_sub(entry.size);
            removed.push(entry.path);
        }
    }

    fn find_unprotected(&self) -> (r: usize)
        ensures
            r == first_unprotected(self@.queue, self@.position, 0),
            r <= self.queue@.len(),
    {
        let ghost q = self@.queue;
        let mut i: usize = 0;
        while i < self.queue.len() && self.is_protected(self.queue[i].position)
            invariant
                i <= self.queue@.len(),
                q == self@.queue,
                q == entry_views(self.queue@),
                first_unprotected(q, self@.position, 0) == first_unprotected(
                    q,
                    self@.position,
                    i as int,
                ),
            decreases self.queue@.len() - i,
        {
            assert(q[i as int] == self.queue@[i as int]@);
            i += 1;
        }
        proof {
            if i < self.queue@.len() {
                assert(q[i as int] == self.queue@[i as int]@);
            }
        }
        i
    }

    fn cleanup_if_needed(&mut self, now: u64) -> (r: Vec<String>)
        ensures
            ({
                let c = Cleanup {
                    queue: old(self)@.queue,
                    total_size: old(self)@.total_size,
                    removed: Seq::empty(),
                }.soft(old(self)@.position, now).hard(now);
                &&& final(self)@ == (TrackerView {
                    queue: c.queue,
                    total_size: c.total_size,
                    ..old(self)@
                })
                &&& text::texts(r@) == c.removed
            }),
    {
        let mut removed: Vec<String> = Vec::new();
        let ghost start = Cleanup {
            queue: self@.queue,
            total_size: self@.total_size,
            removed: Seq::empty(),
        };
        assert(text::texts(removed@) =~= Seq::empty());
        let mut done = false;
        while !done && self.queue.len() > SOFT_LIMIT
            invariant
                self@.position == old(self)@.position,
                self@.last_log == old(self)@.last_log,
                start.soft(old(self)@.position, now) == (Cleanup {
                    queue: self@.queue,
                    total_size: self@.total_size,
                    removed: text::texts(removed@),
                }).soft(old(self)@.position, now),
                done ==> !(Cleanup {
                    queue: self@.queue,
                    total_size: self@.total_size,
                    removed: text::texts(removed@),
                }).soft_due(old(self)@.position, now),
            decreases self.queue@.len() + (if done {
                0int
            } else {
                1
            }),
        {
            let i = self.find_unprotected();
            assert(self@.queue.len() == self.queue@.len());
            if i >= self.queue.len() {
                done = true;
            } else {
                assert(self@.queue[i as int] == self.queue@[i as int]@);
                if duration_since(now, self.queue[i].created) < MIN_AGE {
                    done = true;
                } else {
                    self.take_out(i, &mut removed);
                }
            }
        }
        let ghost middle = Cleanup {
            queue: self@.queue,
            total_size: self@.total_size,
            removed: text::texts(removed@),
        };
        assert(self@.queue.len() == self.queue@.len());
        assert(middle.soft(old(self)@.position, now) == middle);
        done = false;
        while !done && self.queue.len() > HARD_LIMIT
            invariant
                self@.position == old(self)@.position,
                self@.last_log == old(self)@.last_log,
                middle.hard(now) == (Cleanup {
                    queue: self@.queue,
                    total_size: self@.total_size,
                    removed: text::texts(removed@),
                }).hard(now),
                done ==> !(Cleanup {
                    queue: self@.queue,
                    total_size: self@.total_size,
                    removed: text::texts(removed@),
                }).hard_due(now),
            decreases self.queue@.len() + (if done {
                0int
            } else {
                1
            }),
        {
            assert(self@.queue.len() == self.queue@.len());
            assert(self@.queue[0] == self.queue@[0]@);
            if duration_since(now, self.queue[0].created) < FORCED_AGE {
                done = true;
            } else {
                self.take_out(0, &mut removed);
            }
        }
        assert(self@.queue.len() == self.queue@.len());
        removed
    }

    fn maybe_log_stats(&mut self, now: u64) -> (r: Option<TrackerStats>)
        ensures
            final(self)@ == (TrackerView {
                last_log: if old(self)@.report_due(now) {
                    now
                } else {
                    old(self)@.last_log
                },
                ..old(self)@
            }),
            r == (if old(self)@.report_due(now) {
                Some(old(self)@.stats())
            } else {
                None
            }),
    {
        if duration_since(now, self.last_log) >= LOG_INTERVAL {
            let protected = self.protected_count();
            let stats = TrackerStats {
                regions: self.queue.len(),
                protected,
                total_size: self.total_size,
                position: self.current_position,
            };
            self.last_log = now;
            Some(stats)
        } else {
            None
        }
    }

    /// Lets go of all regions, whatever their age and position: their paths are to be removed.
    pub fn cleanup_all(&mut self) -> (r: Vec<String>)
        ensures
            text::texts(r@) == old(self)@.queue.map_values(|e: EntryView| e.path),
            final(self)@ == (TrackerView { queue: Seq::empty(), total_size: 0, ..old(self)@ }),
    {
        let mut removed: Vec<String> = Vec::new();
        let ghost all = self.queue@;
        let ghost mut taken: int = 0;
        assert(all.skip(0) =~= all);
        while self.queue.len() > 0
            invariant
                0 <= taken <= all.len(),
                self.queue@ == all.skip(taken),
                removed@.len() == taken,
                forall|k: int| 0 <= k < taken ==> (#[trigger] removed@[k])@ == all[k].path@,
                self@.position == old(self)@.position,
                self@.last_log == old(self)@.last_log,
                all == old(self).queue@,
            decreases self.queue@.len(),
        {
            if let Some(entry) = self.queue.pop_front() {
                proof {
                    assert(self.queue@ =~= all.skip(taken + 1));
                    assert(entry == all[taken]);
                    taken = taken + 1;
                }
                removed.push(entry.path);
            }
        }
        self.total_size = 0;
        proof {
            assert(entry_views(self.queue@) =~= Seq::empty());
            assert(text::texts(removed@) =~= old(self)@.queue.map_values(|e: EntryView| e.path));
        }
        removed
    }

    /// The state of the tracker, region by region.
    pub fn dump_state(&self) -> (r: StateDump)
        ensures
            r.position == self@.position,
            r.protected_min == self@.position - PROTECTION_RADIUS,
            r.protected_max == self@.position + PROTECTION_RADIUS,
            r.total_size == self@.total_size,
            r.entries@.len() == self@.queue.len(),
            forall|i: int|
                0 <= i < r.entries@.len() ==> dumps(
                    #[trigger] r.entries@[i],
                    self@.queue[i],
                    self@.position,
                ),
    {
        let mut entries: Vec<EntryDump> = Vec::new();
        let ghost q = self@.queue;
        let mut i: usize = 0;
        while i < self.queue.len()
            invariant
                i <= self.queue@.len(),
                q == self@.queue,
                q == entry_views(self.queue@),
                entries@.len() == i,
                forall|k: int|
                    0 <= k < i ==> dumps(#[trigger] entries@[k], q[k], self@.position),
            decreases self.queue@.len() - i,
        {
            assert(q[i as int] == self.queue@[i as int]@);
            let e = &self.queue[i];
            let d = EntryDump {
                protected: self.is_protected(e.position),
                position: e.position,
                path: text::copy(e.path.as_str()),
                size: e.size,
            };
            entries.push(d);
            i += 1;
        }
        StateDump {
            position: self.current_position,
            protected_min: self.current_position as i128 - PROTECTION_RADIUS as i128,
            protected_max: self.current_position as i128 + PROTECTION_RADIUS as i128,
            total_size: self.total_size,
            entries,
        }
    }

    /// How many regions are tracked.
    pub fn len(&self) -> (r: usize)
        ensures
            r == self@.queue.len(),
    {
        self.queue.len()
    }

    /// Whether no region is tracked.
    pub fn is_empty(&self) -> (r: bool)
        ensures
            r == (self@.queue.len() == 0),
    {
        self.queue.len() == 0
    }

    /// The size of all regions together.
    pub fn total_size(&self) -> (r: usize)
        ensures
            r == self@.total_size,
    {
        self.total_size
    }

    /// How many regions are protected.
    pub fn protected_count(&self) -> (r: usize)
        ensures
            r == count_protected(self@.queue, self@.position, self@.queue.len()),
    {
        let ghost q = self@.queue;
        let mut n: usize = 0;
        let mut i: usize = 0;
        while i < self.queue.len()
            invariant
                n <= i <= self.queue@.len(),
                q == self@.queue,
                q == entry_views(self.queue@),
                n == count_protected(q, self@.position, i as nat),
            decreases self.queue@.len() - i,
        {
            assert(q[i as int] == self.queue@[i as int]@);
            if self.is_protected(self.queue[i].position) {
                n += 1;
            }
            i += 1;
        }
        n
    }
}

/// The tracker of the application: it is made once, before the first region comes.
pub fn tracker(now: u64) -> (r: LifecycleTracker)
    ensures
        r@ == (TrackerView { queue: Seq::empty(), total_size: 0, last_log: now, position: 0 }),
{
    LifecycleTracker::new(now)
}

/// How the system answered when a path was to be removed.
#[derive(Clone, Copy, Debug, PartialEq, Eq, Structural)]
pub enum UnlinkAnswer {
    Removed,
    /// There was nothing at the path.
    NotFound,
    Failed,
}

/// Whether a path can be handed to the system: it holds no character with the number zero.
pub open spec fn path_fits(path: Seq<char>) -> bool {
    forall|i: int| 0 <= i < path.len() ==> #[trigger] path[i] as int != 0
}

/// Whether a path can be handed to the system.
pub fn can_unlink(path: &str) -> (r: bool)
    ensures
        r == path_fits(path@),
{
    let cs = text::chars_of(path);
    let mut i: usize = 0;
    while i < cs.len()
        invariant
            i <= cs@.len(),
            cs@ == path@,
            forall|k: int| 0 <= k < i ==> #[trigger] path@[k] as int != 0,
        decreases cs@.len() - i,
    {
        if text::code(cs[i]) == 0 {
            assert(path@[i as int] as int == 0);
            return false;
        }
        i += 1;
    }
    true
}

/// Whether the removal of a path counts as done: another owner may have removed it before.
pub fn unlink_path(path: &str, answer: UnlinkAnswer) -> (r: bool)
    ensures
        r == (path_fits(path@) && !(answer is Failed)),
{
    can_unlink(path) && match answer {
        UnlinkAnswer::Failed => false,
        _ => true,
    }
}

// ---------------------------------------------------------------------------------------------
// Laws
// ---------------------------------------------------------------------------------------------
proof fn lemma_first_unprotected(queue: Seq<EntryView>, current: i64, i: int)
    requires
        0 <= i <= queue.len(),
    ensures
        ({
            let k = first_unprotected(queue, current, i);
            &&& i <= k <= queue.len()
            &&& k < queue.len() ==> !protected(queue[k].position, current)
            &&& forall|j: int| i <= j < k ==> protected((#[trigger] queue[j]).position, current)
        }),
    decreases queue.len() - i,
{
    if i < queue.len() && protected(queue[i].position, current) {
        lemma_first_unprotected(queue, current, i + 1);
    }
}

proof fn lemma_others_stay(queue: Seq<EntryView>, i: int, e: EntryView)
    requires
        0 <= i < queue.len(),
        queue.contains(e),
        queue[i] != e,
    ensures
        queue.remove(i).contains(e),
{
    let k = choose|k: int| 0 <= k < queue.len() && queue[k] == e;
    if k < i {
        assert(queue.remove(i)[k] == e);
    } else {
        assert(queue.remove(i)[k - 1] == e);
    }
}

/// Whether a clean-up has no right to remove a region.
pub open spec fn safe_from_soft(e: EntryView, current: i64, now: u64) -> bool {
    protected(e.position, current) || since(now, e.created) < MIN_AGE
}

proof fn lemma_soft_keeps(c: Cleanup, current: i64, now: u64, e: EntryView)
    requires
        c.queue.contains(e),
        safe_from_soft(e, current, now),
    ensures
        c.soft(current, now).queue.contains(e),
    decreases c.queue.len(),
{
    if c.soft_due(current, now) {
        let i = first_unprotected(c.queue, current, 0);
        lemma_first_unprotected(c.queue, current, 0);
        lemma_others_stay(c.queue, i, e);
        lemma_soft_keeps(c.without(i), current, now, e);
    }
}

proof fn lemma_hard_keeps(c: Cleanup, now: u64, e: EntryView)
    requires
        c.queue.contains(e),
        since(now, e.created) < FORCED_AGE,
    ensures
        c.hard(now).queue.contains(e),
    decreases c.queue.len(),
{
    if c.hard_due(now) {
        lemma_others_stay(c.queue, 0, e);
        lemma_hard_keeps(c.without(0), now, e);
    }
}

proof fn lemma_soft_shrinks(c: Cleanup, current: i64, now: u64)
    ensures
        c.soft(current, now).queue.len() <= c.queue.len(),
        !c.soft(current, now).soft_due(current, now),
    decreases c.queue.len(),
{
    lemma_first_unprotected(c.queue, current, 0);
    if c.soft_due(current, now) {
        lemma_soft_shrinks(c.without(first_unprotected(c.queue, current, 0)), current, now);
    }
}

proof fn lemma_hard_ends(c: Cleanup, current: i64, now: u64)
    requires
        !c.soft_due(current, now),
    ensures
        !c.hard(now).hard_due(now),
        !c.hard(now).soft_due(current, now),
    decreases c.queue.len(),
{
    if c.hard_due(now) {
        let rest = c.queue.remove(0);
        lemma_first_unprotected(c.queue, current, 0);
        lemma_first_unprotected(rest, current, 0);
        let i = first_unprotected(c.queue, current, 0);
        let k = first_unprotected(rest, current, 0);
        assert(i > 0);
        assert(k == i - 1) by {
            if k < i - 1 {
                assert(rest[k] == c.queue[k + 1]);
            }
            if k > i - 1 {
                assert(rest[i - 1] == c.queue[i]);
            }
        }
        if k < rest.len() {
            assert(rest[k] == c.queue[i]);
        }
        lemma_hard_ends(c.without(0), current, now);
    }
}

/// A region that is younger than a second is never removed, and that includes the one that just came.
pub proof fn law_young_regions_stay(t: TrackerView, entry: EntryView, e: EntryView)
    requires
        t.queue.push(entry).contains(e),
        since(entry.created, e.created) < MIN_AGE,
    ensures
        t.with(entry).queue.contains(e),
{
    let start = Cleanup {
        queue: t.queue.push(entry),
        total_size: more_by(t.total_size, entry.size),
        removed: Seq::empty(),
    };
    lemma_soft_keeps(start, t.position, entry.created, e);
    lemma_hard_keeps(start.soft(t.position, entry.created), entry.created, e);
}

/// A protected region is removed only where there are more regions than the hard limit, and only when
/// it is five seconds old.
pub proof fn law_protected_regions_stay(t: TrackerView, entry: EntryView, e: EntryView)
    requires
        t.queue.push(entry).contains(e),
        protected(e.position, t.position),
        t.queue.len() < HARD_LIMIT || since(entry.created, e.created) < FORCED_AGE,
    ensures
        t.with(entry).queue.contains(e),
{
    let start = Cleanup {
        queue: t.queue.push(entry),
        total_size: more_by(t.total_size, entry.size),
        removed: Seq::empty(),
    };
    lemma_soft_keeps(start, t.position, entry.created, e);
    lemma_soft_shrinks(start, t.position, entry.created);
    if t.queue.len() >= HARD_LIMIT {
        lemma_hard_keeps(start.soft(t.position, entry.created), entry.created, e);
    }
}

/// Above the hard limit the oldest region is younger than five seconds. Above the soft limit all
/// regions are protected, or the first one that is not is younger than a second.
pub proof fn law_limits_are_kept(t: TrackerView, entry: EntryView)
    ensures
        ({
            let q = t.with(entry).queue;
            let i = first_unprotected(q, t.position, 0);
            &&& q.len() <= HARD_LIMIT || since(entry.created, q[0].created) < FORCED_AGE
            &&& q.len() <= SOFT_LIMIT || i >= q.len() || since(entry.created, q[i].created)
                < MIN_AGE
        }),
{
    let start = Cleanup {
        queue: t.queue.push(entry),
        total_size: more_by(t.total_size, entry.size),
        removed: Seq::empty(),
    };
    lemma_soft_shrinks(start, t.position, entry.created);
    lemma_hard_ends(start.soft(t.position, entry.created), t.position, entry.created);
}

/// The paths of regions.
pub open spec fn paths_of(queue: Seq<EntryView>) -> Seq<Seq<char>> {
    queue.map_values(|e: EntryView| e.path)
}

/// All paths that a clean-up knows: those that stay and those that go.
pub open spec fn known_paths(c: Cleanup) -> vstd::multiset::Multiset<Seq<char>> {
    paths_of(c.queue).to_multiset().add(c.removed.to_multiset())
}

proof fn lemma_without_keeps_paths(c: Cleanup, i: int)
    requires
        0 <= i < c.queue.len(),
    ensures
        known_paths(c.without(i)) == known_paths(c),
{
    broadcast use vstd::seq_lib::group_to_multiset_ensures;

    let paths = paths_of(c.queue);
    let p = c.queue[i].path;
    assert(paths_of(c.queue.remove(i)) =~= paths.remove(i));
    assert(paths[i] == p);
    assert(paths.remove(i).to_multiset() =~= paths.to_multiset().remove(p));
    assert(paths.to_multiset().count(p) > 0) by {
        assert(paths.contains(p));
    }
    assert(known_paths(c.without(i)) =~= known_paths(c));
}

proof fn lemma_soft_keeps_paths(c: Cleanup, current: i64, now: u64)
    ensures
        known_paths(c.soft(current, now)) == known_paths(c),
    decreases c.queue.len(),
{
    lemma_first_unprotected(c.queue, current, 0);
    if c.soft_due(current, now) {
        let i = first_unprotected(c.queue, current, 0);
        lemma_without_keeps_paths(c, i);
        lemma_soft_keeps_paths(c.without(i), current, now);
    }
}

proof fn lemma_hard_keeps_paths(c: Cleanup, now: u64)
    ensures
        known_paths(c.hard(now)) == known_paths(c),
    decreases c.queue.len(),
{
    if c.hard_due(now) {
        lemma_without_keeps_paths(c, 0);
        lemma_hard_keeps_paths(c.without(0), now);
    }
}

/// No region is lost: every path that came is tracked, or it was given out to be removed, and never
/// both.
pub proof fn law_no_region_is_lost(t: TrackerView, entry: EntryView)
    ensures
        paths_of(t.with(entry).queue).to_multiset().add(t.cleaned(entry).removed.to_multiset())
            == paths_of(t.queue.push(entry)).to_multiset(),
{
    broadcast use vstd::seq_lib::group_to_multiset_ensures;

    let start = Cleanup {
        queue: t.queue.push(entry),
        total_size: more_by(t.total_size, entry.size),
        removed: Seq::empty(),
    };
    lemma_soft_keeps_paths(start, t.position, entry.created);
    lemma_hard_keeps_paths(start.soft(t.position, entry.created), entry.created);
    assert(known_paths(start) =~= paths_of(t.queue.push(entry)).to_multiset());
}

/// The size of regions together.
pub open spec fn sum_of_sizes(queue: Seq<EntryView>, n: nat) -> int
    decreases n,
{
    if n == 0 || n > queue.len() {
        0
    } else {
        sum_of_sizes(queue, (n - 1) as nat) + queue[n - 1].size
    }
}

proof fn lemma_sum_same(a: Seq<EntryView>, b: Seq<EntryView>, n: nat)
    requires
        n <= a.len(),
        n <= b.len(),
        forall|i: int| 0 <= i < n ==> a[i] == b[i],
    ensures
        sum_of_sizes(a, n) == sum_of_sizes(b, n),
    decreases n,
{
    if n > 0 {
        lemma_sum_same(a, b, (n - 1) as nat);
    }
}

proof fn lemma_sum_without(queue: Seq<EntryView>, i: int, n: nat)
    requires
        0 <= i < n <= queue.len(),
    ensures
        sum_of_sizes(queue.remove(i), (n - 1) as nat) == sum_of_sizes(queue, n) - queue[i].size,
        sum_of_sizes(queue, n) >= queue[i].size,
    decreases n,
{
    lemma_sum_is_positive(queue, (n - 1) as nat);
    if i == n - 1 {
        lemma_sum_same(queue, queue.remove(i), (n - 1) as nat);
    } else {
        lemma_sum_without(queue, i, (n - 1) as nat);
        assert(queue.remove(i)[n - 2] == queue[n - 1]);
    }
}

proof fn lemma_sum_is_positive(queue: Seq<EntryView>, n: nat)
    ensures
        sum_of_sizes(queue, n) >= 0,
    decreases n,
{
    if 0 < n <= queue.len() {
        lemma_sum_is_positive(queue, (n - 1) as nat);
    }
}

proof fn lemma_soft_keeps_sum(c: Cleanup, current: i64, now: u64)
    requires
        c.total_size == sum_of_sizes(c.queue, c.queue.len()),
    ensures
        ({
            let d = c.soft(current, now);
            d.total_size == sum_of_sizes(d.queue, d.queue.len())
        }),
    decreases c.queue.len(),
{
    lemma_first_unprotected(c.queue, current, 0);
    if c.soft_due(current, now) {
        let i = first_unprotected(c.queue, current, 0);
        lemma_sum_without(c.queue, i, c.queue.len());
        lemma_soft_keeps_sum(c.without(i), current, now);
    }
}

proof fn lemma_hard_keeps_sum(c: Cleanup, now: u64)
    requires
        c.total_size == sum_of_sizes(c.queue, c.queue.len()),
    ensures
        ({
            let d = c.hard(now);
            d.total_size == sum_of_sizes(d.queue, d.queue.len())
        }),
    decreases c.queue.len(),
{
    if c.hard_due(now) {
        lemma_sum_without(c.queue, 0, c.queue.len());
        lemma_hard_keeps_sum(c.without(0), now);
    }
}

/// The total is the size of all regions together, as long as that can be written down.
pub proof fn law_total_is_the_sum(t: TrackerView, entry: EntryView)
    requires
        t.total_size == sum_of_sizes(t.queue, t.queue.len()),
        t.total_size + entry.size <= usize::MAX,
    ensures
        t.with(entry).total_size == sum_of_sizes(t.with(entry).queue, t.with(entry).queue.len()),
{
    let start = Cleanup {
        queue: t.queue.push(entry),
        total_size: more_by(t.total_size, entry.size),
        removed: Seq::empty(),
    };
    lemma_sum_same(t.queue, start.queue, t.queue.len());
    lemma_soft_keeps_sum(start, t.position, entry.created);
    lemma_hard_keeps_sum(start.soft(t.position, entry.created), entry.created);
}

} // verus!
