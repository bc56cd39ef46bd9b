//! A fixed set of regions of shared memory, used in turn.
//!
//! The pool decides which region comes next; the system's part (making regions, filling and removing
//! them) is left to whoever asks. Times are nanoseconds of one clock that does not run backwards.
use vstd::prelude::*;
use vstd::string::*;

use super::tracker::{duration_since, since};
use crate::text;
use crate::text::decimal;

verus! {

/// The size of a region.
pub const DEFAULT_REGION_SIZE: usize = 33_554_432;

/// The number of regions.
pub const DEFAULT_POOL_SIZE: usize = 10;

/// How long a region rests before it is used again.
pub const DEFAULT_MIN_REUSE_AGE: u64 = 1_000_000_000;

/// A region of the pool.
pub struct PoolSlot {
    path: String,
    size: usize,
    last_used: Option<u64>,
}

/// A region of the pool.
pub struct SlotView {
    pub path: Seq<char>,
    pub size: usize,
    pub last_used: Option<u64>,
}

impl View for PoolSlot {
    type V = SlotView;

    closed spec fn view(&self) -> SlotView {
        SlotView { path: self.path@, size: self.size, last_used: self.last_used }
    }
}

/// What a pool knows.
pub struct PoolView {
    pub slots: Seq<SlotView>,
    pub current: nat,
    pub region_size: usize,
    pub pool_size: usize,
    pub prefix: Seq<char>,
    pub initialized: bool,
    pub min_reuse_age: u64,
}

/// The path of a region.
pub open spec fn slot_path(prefix: Seq<char>, i: nat) -> Seq<char> {
    "/"@ + prefix + "_"@ + decimal(i)
}

/// The start of the paths of a process.
pub open spec fn process_prefix(pid: u32) -> Seq<char> {
    "kgfxv2_pool_"@ + decimal(pid as nat)
}

/// The regions of a pool that was just made.
pub open spec fn fresh_slots(prefix: Seq<char>, size: usize, n: nat) -> Seq<SlotView> {
    Seq::new(n, |i: int| SlotView { path: slot_path(prefix, i as nat), size, last_used: None })
}

/// The region that the system could not make, and why.
#[derive(Debug)]
pub struct SlotFailure {
    pub index: usize,
    pub cause: String,
}

/// Why nothing was written.
#[derive(Debug)]
pub enum PoolError {
    /// A region could not be made.
    CreateFailed { index: usize, cause: String },
    /// The pool has no regions.
    Empty,
    /// The data is larger than a region.
    TooLarge { len: usize, size: usize },
    /// All regions are in use.
    InUse,
}

/// Why nothing was written.
pub enum PoolErrorView {
    CreateFailed { index: usize, cause: Seq<char> },
    Empty,
    TooLarge { len: usize, size: usize },
    InUse,
}

impl View for PoolError {
    type V = PoolErrorView;

    open spec fn view(&self) -> PoolErrorView {
        match self {
            PoolError::CreateFailed { index, cause } => PoolErrorView::CreateFailed {
                index: *index,
                cause: cause@,
            },
            PoolError::Empty => PoolErrorView::Empty,
            PoolError::TooLarge { len, size } => PoolErrorView::TooLarge { len: *len, size: *size },
            PoolError::InUse => PoolErrorView::InUse,
        }
    }
}

/// The wording of an error.
pub open spec fn pool_error_text(e: PoolErrorView) -> Seq<char> {
    match e {
        PoolErrorView::CreateFailed { index, cause } => "failed to create pool slot "@ + decimal(
            index as nat,
        ) + ": "@ + cause,
        PoolErrorView::Empty => "pool is empty"@,
        PoolErrorView::TooLarge { len, size } => "data too large: "@ + decimal(len as nat)
            + " bytes exceeds slot size of "@ + decimal(size as nat) + " bytes"@,
        PoolErrorView::InUse => "all pool slots are in use (min reuse age not elapsed)"@,
    }
}

impl PoolError {
    /// The wording of the error.
    pub fn message(&self) -> (r: String)
        ensures
            r@ == pool_error_text(self@),
    {
        match self {
            PoolError::CreateFailed { index, cause } => {
                let n = text::decimal_of(*index as u64);
                let mut s = text::copy("failed to create pool slot ");
                s.append(n.as_str());
                s.append(": ");
                s.append(cause.as_str());
                s
            },
            PoolError::Empty => text::copy("pool is empty"),
            PoolError::TooLarge { len, size } => {
                let n = text::decimal_of(*len as u64);
                let m = text::decimal_of(*size as u64);
                let mut s = text::copy("data too large: ");
                s.append(n.as_str());
                s.append(" bytes exceeds slot size of ");
                s.append(m.as_str());
                s.append(" bytes");
                s
            },
            PoolError::InUse => text::copy(
                "all pool slots are in use (min reuse age not elapsed)",
            ),
        }
    }
}

/// The region that was chosen for data.
#[derive(Debug)]
pub struct Written {
    pub index: usize,
    pub path: String,
}

/// What a search for a region ends with.
pub enum Outcome {
    Written { index: nat, path: Seq<char> },
    Refused { error: PoolErrorView },
}

impl PoolView {
    /// A pool whose regions are not made yet.
    pub open spec fn made(
        pool_size: usize,
        region_size: usize,
        prefix: Seq<char>,
        min_reuse_age: u64,
    ) -> PoolView {
        PoolView {
            slots: Seq::empty(),
            current: 0,
            region_size,
            pool_size,
            prefix,
            initialized: false,
            min_reuse_age,
        }
    }

    /// The regions are all there or none is, each has its own path and the size of all, and the next
    /// one is among them.
    pub open spec fn wf(self) -> bool {
        &&& self.slots.len() == (if self.initialized {
            self.pool_size as nat
        } else {
            0
        })
        &&& self.slots.len() > 0 ==> self.current < self.slots.len()
        &&& self.slots.len() == 0 ==> self.current == 0
        &&& forall|i: int|
            0 <= i < self.slots.len() ==> (#[trigger] self.slots[i]).path == slot_path(
                self.prefix,
                i as nat,
            ) && self.slots[i].size == self.region_size
    }

    /// The pool with all its regions.
    pub open spec fn ready(self) -> PoolView {
        if self.initialized {
            self
        } else {
            PoolView {
                slots: fresh_slots(self.prefix, self.region_size, self.pool_size as nat),
                initialized: true,
                ..self
            }
        }
    }

    /// Whether a region may be used now.
    pub open spec fn free(self, i: int, now: u64) -> bool {
        match self.slots[i].last_used {
            Some(t) => since(now, t) >= self.min_reuse_age,
            None => true,
        }
    }

    /// The region after the current one.
    pub open spec fn next(self) -> nat {
        if self.current + 1 >= self.slots.len() {
            0
        } else {
            self.current + 1
        }
    }

    /// The search for a region among the next `tries` ones.
    pub open spec fn written(self, len: usize, now: u64, tries: nat) -> (PoolView, Outcome)
        decreases tries,
    {
        if tries == 0 {
            (self, Outcome::Refused { error: PoolErrorView::InUse })
        } else {
            let slot = self.slots[self.current as int];
            if self.free(self.current as int, now) {
                if len > slot.size {
                    (
                        self,
                        Outcome::Refused {
                            error: PoolErrorView::TooLarge { len, size: slot.size },
                        },
                    )
                } else {
                    (
                        PoolView {
                            slots: self.slots.update(
                                self.current as int,
                                SlotView { last_used: Some(now), ..slot },
                            ),
                            current: self.next(),
                            ..self
                        },
                        Outcome::Written { index: self.current, path: slot.path },
                    )
                }
            } else {
                PoolView { current: self.next(), ..self }.written(len, now, (tries - 1) as nat)
            }
        }
    }

    /// Data put into the next region that may be used.
    pub open spec fn filled(self, len: usize, now: u64) -> (PoolView, Outcome) {
        if self.slots.len() == 0 {
            (self, Outcome::Refused { error: PoolErrorView::Empty })
        } else {
            self.written(len, now, self.slots.len())
        }
    }
}

/// A fixed set of regions, used in turn.
pub struct RegionPool {
    slots: Vec<PoolSlot>,
    current_index: usize,
    region_size: usize,
    pool_size: usize,
    prefix: String,
    initialized: bool,
    min_reuse_age: u64,
}

/// The regions that a vector holds.
pub open spec fn slot_views(v: Seq<PoolSlot>) -> Seq<SlotView> {
    v.map_values(|s: PoolSlot| s@)
}

impl View for RegionPool {
    type V = PoolView;

    closed spec fn view(&self) -> PoolView {
        PoolView {
            slots: slot_views(self.slots@),
            current: self.current_index as nat,
            region_size: self.region_size,
            pool_size: self.pool_size,
            prefix: self.prefix@,
            initialized: self.initialized,
            min_reuse_age: self.min_reuse_age,
        }
    }
}

fn make_prefix(pid: u32) -> (r: String)
    ensures
        r@ == process_prefix(pid),
{
    let n = text::decimal_of(pid as u64);
    let mut s = text::copy("kgfxv2_pool_");
    s.append(n.as_str());
    s
}

fn make_path(prefix: &str, i: usize) -> (r: String)
    ensures
        r@ == slot_path(prefix@, i as nat),
{
    let n = text::decimal_of(i as u64);
    let mut s = text::copy("/");
    s.append(prefix);
    s.append("_");
    s.append(n.as_str());
    s
}

impl RegionPool {
    /// A pool of the usual size for a process.
    pub fn new(pid: u32) -> (r: Self)
        ensures
            r@ == PoolView::made(
                DEFAULT_POOL_SIZE,
                DEFAULT_REGION_SIZE,
                process_prefix(pid),
                DEFAULT_MIN_REUSE_AGE,
            ),
            r@.wf(),
    {
        RegionPool::with_config(DEFAULT_POOL_SIZE, DEFAULT_REGION_SIZE, pid)
    }

    /// A pool of a given size for a process.
    pub fn with_config(pool_size: usize, region_size: usize, pid: u32) -> (r: Self)
        ensures
            r@ == PoolView::made(
                pool_size,
                region_size,
                process_prefix(pid),
                DEFAULT_MIN_REUSE_AGE,
            ),
            r@.wf(),
    {
        RegionPool::with_config_and_reuse_age(pool_size, region_size, DEFAULT_MIN_REUSE_AGE, pid)
    }

    /// A pool of a given size for a process, whose regions rest for a given time.
    pub fn with_config_and_reuse_age(
        pool_size: usize,
        region_size: usize,
        min_reuse_age: u64,
        pid: u32,
    ) -> (r: Self)
        ensures
            r@ == PoolView::made(pool_size, region_size, process_prefix(pid), min_reuse_age),
            r@.wf(),
    {
        let prefix = make_prefix(pid);
        RegionPool::with_config_and_prefix(pool_size, region_size, prefix, min_reuse_age)
    }

    /// A pool of a given size, whose paths start in a given way.
    pub fn with_config_and_prefix(
        pool_size: usize,
        region_size: usize,
        prefix: String,
        min_reuse_age: u64,
    ) -> (r: Self)
        ensures
            r@ == PoolView::made(pool_size, region_size, prefix@, min_reuse_age),
            r@.wf(),
    {
        let r = RegionPool {
            slots: Vec::new(),
            current_index: 0,
            region_size,
            pool_size,
            prefix,
            initialized: false,
            min_reuse_age,
        };
        assert(r@.slots =~= Seq::empty());
        r
    }

    /// The paths of the regions that the system has to make before the pool is ready, in order.
    pub fn paths_to_create(&self) -> (r: Vec<String>)
        ensures
            text::texts(r@) == (if self@.initialized {
                Seq::empty()
            } else {
                Seq::new(self@.pool_size as nat, |i: int| slot_path(self@.prefix, i as nat))
            }),
    {
        let mut paths: Vec<String> = Vec::new();
        if !self.initialized {
            let mut i: usize = 0;
            while i < self.pool_size
                invariant
                    i <= self.pool_size,
                    text::texts(paths@) =~= Seq::new(
                        i as nat,
                        |k: int| slot_path(self.prefix@, k as nat),
                    ),
                decreases self.pool_size - i,
            {
                let p = make_path(self.prefix.as_str(), i);
                proof {
                    text::lemma_texts_push(paths@, p);
                }
                paths.push(p);
                i += 1;
            }
        }
        assert(self@.initialized ==> text::texts(paths@) =~= Seq::empty());
        paths
    }

    /// Makes the pool ready, once; `failure` is the region that the system could not make.
    pub fn initialize(&mut self, failure: &Option<SlotFailure>) -> (r: Result<(), PoolError>)
        requires
            old(self)@.wf(),
        ensures
            final(self)@.wf(),
            match (old(self)@.initialized, *failure) {
                (false, Some(f)) => final(self)@ == old(self)@ && (r matches Err(
                    PoolError::CreateFailed { index, cause },
                ) && index == f.index && cause@ == f.cause@),
                _ => r is Ok && final(self)@ == old(self)@.ready(),
            },
    {
        if self.initialized {
            return Ok(());
        }
        if let Some(f) = failure {
            return Err(
                PoolError::CreateFailed { index: f.index, cause: text::copy(f.cause.as_str()) },
            );
        }
        let mut slots: Vec<PoolSlot> = Vec::new();
        let mut i: usize = 0;
        while i < self.pool_size
            invariant
                i <= self.pool_size,
                slots@.len() == i,
                forall|k: int|
                    0 <= k < i ==> (#[trigger] slots@[k])@ == (SlotView {
                        path: slot_path(self.prefix@, k as nat),
                        size: self.region_size,
                        last_used: None,
                    }),
            decreases self.pool_size - i,
        {
            let path = make_path(self.prefix.as_str(), i);
            slots.push(PoolSlot { path, size: self.region_size, last_used: None });
            i += 1;
        }
        self.slots = slots;
        self.initialized = true;
        assert(self@.slots =~= fresh_slots(
            self@.prefix,
            self@.region_size,
            self@.pool_size as nat,
        ));
        Ok(())
    }

    /// Chooses the next region that may be used for data of a given length. Regions are taken in turn;
    /// the pool is made ready first.
    pub fn write_and_get_path(&mut self, len: usize, now: u64, failure: &Option<SlotFailure>) -> (r:
        Result<Written, PoolError>)
        requires
            old(self)@.wf(),
        ensures
            final(self)@.wf(),
            match (old(self)@.initialized, *failure) {
                (false, Some(f)) => final(self)@ == old(self)@ && (r matches Err(
                    PoolError::CreateFailed { index, cause },
                ) && index == f.index && cause@ == f.cause@),
                _ => {
                    let (pool, outcome) = old(self)@.ready().filled(len, now);
                    &&& final(self)@ == pool
                    &&& match r {
                        Ok(w) => outcome == (Outcome::Written {
                            index: w.index as nat,
                            path: w.path@,
                        }),
                        Err(e) => outcome == (Outcome::Refused { error: e@ }),
                    }
                },
            },
    {
        match self.initialize(failure) {
            Ok(()) => {},
            Err(e) => {
                return Err(e);
            },
        }
        let ghost start = self@;
        let n: usize = self.slots.len();
        assert(start.slots.len() == n);
        if n == 0 {
            return Err(PoolError::Empty);
        }
        let mut tries: usize = n;
        while tries > 0
            invariant
                tries <= n,
                n > 0,
                n == self.slots@.len(),
                self@.wf(),
                start.written(len, now, n as nat) == self@.written(len, now, tries as nat),
                start == old(self)@.ready(),
                start.slots.len() == n,
                old(self)@.initialized || *failure is None,
            decreases tries,
        {
            assert(self@.slots.len() == n);
            let i = self.current_index;
            assert(self@.slots[i as int] == self.slots@[i as int]@);
            let free = match self.slots[i].last_used {
                Some(t) => duration_since(now, t) >= self.min_reuse_age,
                None => true,
            };
            let next: usize = if i + 1 >= n {
                0
            } else {
                i + 1
            };
            if free {
                let size = self.slots[i].size;
                if len > size {
                    return Err(PoolError::TooLarge { len, size });
                }
                let path = text::copy(self.slots[i].path.as_str());
                let kept = text::copy(self.slots[i].path.as_str());
                let ghost before = self.slots@;
                let slot = PoolSlot { path: kept, size, last_used: Some(now) };
                self.slots.set(i, slot);
                self.current_index = next;
                assert(slot_views(before.update(i as int, slot)) =~= slot_views(before).update(
                    i as int,
                    slot@,
                ));
                return Ok(Written { index: i, path });
            }
            self.current_index = next;
            tries -= 1;
        }
        Err(PoolError::InUse)
    }

    /// The size of a region.
    pub fn region_size(&self) -> (r: usize)
        ensures
            r == self@.region_size,
    {
        self.region_size
    }

    /// The number of regions.
    pub fn pool_size(&self) -> (r: usize)
        ensures
            r == self@.pool_size,
    {
        self.pool_size
    }

    /// Whether the regions are made.
    pub fn is_initialized(&self) -> (r: bool)
        ensures
            r == self@.initialized,
    {
        self.initialized
    }

    /// How long a region rests before it is used again.
    pub fn min_reuse_age(&self) -> (r: u64)
        ensures
            r == self@.min_reuse_age,
    {
        self.min_reuse_age
    }

    /// Lets go of all regions: their paths are to be removed. The next write makes them anew.
    pub fn clear(&mut self) -> (r: Vec<String>)
        ensures
            text::texts(r@) == old(self)@.slots.map_values(|s: SlotView| s.path),
            final(self)@ == (PoolView {
                slots: Seq::empty(),
                current: 0,
                initialized: false,
                ..old(self)@
            }),
            final(self)@.wf(),
    {
        let mut paths: Vec<String> = Vec::new();
        let mut i: usize = 0;
        while i < self.slots.len()
            invariant
                i <= self.slots@.len(),
                paths@.len() == i,
                self@ == old(self)@,
                forall|k: int| 0 <= k < i ==> (#[trigger] paths@[k])@ == self.slots@[k].path@,
            decreases self.slots@.len() - i,
        {
            paths.push(text::copy(self.slots[i].path.as_str()));
            i += 1;
        }
        proof {
            assert(old(self)@.slots == slot_views(self.slots@));
            assert(text::texts(paths@) =~= old(self)@.slots.map_values(|s: SlotView| s.path));
        }
        self.slots = Vec::new();
        self.current_index = 0;
        self.initialized = false;
        assert(self@.slots =~= Seq::empty());
        paths
    }
}

/// The pool of the application: it is made once, before the first image comes.
pub fn pool(pid: u32) -> (r: RegionPool)
    ensures
        r@ == PoolView::made(
            DEFAULT_POOL_SIZE,
            DEFAULT_REGION_SIZE,
            process_prefix(pid),
            DEFAULT_MIN_REUSE_AGE,
        ),
        r@.wf(),
{
    RegionPool::new(pid)
}

// ---------------------------------------------------------------------------------------------
// Laws
// ---------------------------------------------------------------------------------------------
/// The region that comes `j` steps after the current one.
pub open spec fn ahead(pool: PoolView, j: nat) -> int {
    if pool.current + j >= pool.slots.len() {
        pool.current + j - pool.slots.len()
    } else {
        (pool.current + j) as int
    }
}

proof fn lemma_written(pool: PoolView, len: usize, now: u64, tries: nat)
    requires
        pool.current < pool.slots.len(),
        tries <= pool.slots.len(),
    ensures
        match pool.written(len, now, tries).1 {
            Outcome::Written { index, path } => index < pool.slots.len() && pool.free(
                index as int,
                now,
            ) && path == pool.slots[index as int].path && len <= pool.slots[index as int].size
                && pool.written(len, now, tries).0.slots == pool.slots.update(
                index as int,
                SlotView { last_used: Some(now), ..pool.slots[index as int] },
            ),
            Outcome::Refused { error } => {
                &&& pool.written(len, now, tries).0.slots == pool.slots
                &&& match error {
                    PoolErrorView::InUse => pool.written(len, now, tries).0.current == ahead(
                        pool,
                        tries,
                    ) && forall|j: nat| j < tries ==> !pool.free(#[trigger] ahead(pool, j), now),
                    PoolErrorView::TooLarge { len: l, size } => exists|j: nat|
                        j < tries && pool.free(#[trigger] ahead(pool, j), now) && l == len && size
                            == pool.slots[ahead(pool, j)].size && len > size,
                    _ => false,
                }
            },
        },
    decreases tries,
{
    assert(ahead(pool, 0) == pool.current);
    if tries > 0 && !pool.free(pool.current as int, now) {
        let next = PoolView { current: pool.next(), ..pool };
        lemma_written(next, len, now, (tries - 1) as nat);
        assert forall|j: nat| j < tries - 1 implies #[trigger] ahead(next, j) == ahead(
            pool,
            j + 1,
        ) by {}
        assert(forall|i: int| #[trigger] next.free(i, now) == pool.free(i, now));
        assert(pool.written(len, now, tries) == next.written(len, now, (tries - 1) as nat));
        if let Outcome::Refused { error } = pool.written(len, now, tries).1 {
            if error is InUse {
                assert forall|j: nat| j < tries implies !pool.free(#[trigger] ahead(pool, j), now) by {
                    if j > 0 {
                        assert(ahead(next, (j - 1) as nat) == ahead(pool, j));
                    }
                }
            } else {
                let j = choose|j: nat|
                    j < tries - 1 && next.free(#[trigger] ahead(next, j), now) && len
                        > next.slots[ahead(next, j)].size;
                assert(pool.free(ahead(pool, j + 1), now));
            }
        }
    }
}

/// A region is used again only when it has rested, and only that region changes.
pub proof fn law_regions_rest(pool: PoolView, len: usize, now: u64)
    requires
        pool.wf(),
    ensures
        pool.filled(len, now).1 matches Outcome::Written { index, path } ==> index
            < pool.slots.len() && pool.free(index as int, now) && path
            == pool.slots[index as int].path && len <= pool.region_size && pool.filled(
            len,
            now,
        ).0.slots == pool.slots.update(
            index as int,
            SlotView { last_used: Some(now), ..pool.slots[index as int] },
        ),
{
    if pool.slots.len() > 0 {
        lemma_written(pool, len, now, pool.slots.len());
    }
}

/// The pool refuses for want of a free region exactly where there are regions and none is free, and
/// then it stays as it was.
pub proof fn law_pool_blocks_when_all_are_in_use(pool: PoolView, len: usize, now: u64)
    requires
        pool.wf(),
        pool.slots.len() > 0,
    ensures
        pool.filled(len, now).1 == (Outcome::Refused { error: PoolErrorView::InUse }) <==> (forall|
            i: int,
        |
            0 <= i < pool.slots.len() ==> !(#[trigger] pool.free(i, now))),
        pool.filled(len, now).1 is Refused ==> pool.filled(len, now).0.slots == pool.slots,
        pool.filled(len, now).1 == (Outcome::Refused { error: PoolErrorView::InUse })
            ==> pool.filled(len, now).0 == pool,
{
    lemma_written(pool, len, now, pool.slots.len());
    let (after, outcome) = pool.filled(len, now);
    if outcome == (Outcome::Refused { error: PoolErrorView::InUse }) {
        assert forall|i: int| 0 <= i < pool.slots.len() implies !(#[trigger] pool.free(i, now)) by {
            let j = (if i >= pool.current {
                i - pool.current
            } else {
                i + pool.slots.len() - pool.current
            }) as nat;
            assert(ahead(pool, j) == i);
        }
        lemma_rest_stays(pool, len, now, pool.slots.len());
    }
}

proof fn lemma_rest_stays(pool: PoolView, len: usize, now: u64, tries: nat)
    ensures
        ({
            let after = pool.written(len, now, tries).0;
            &&& after.region_size == pool.region_size
            &&& after.pool_size == pool.pool_size
            &&& after.prefix == pool.prefix
            &&& after.initialized == pool.initialized
            &&& after.min_reuse_age == pool.min_reuse_age
        }),
    decreases tries,
{
    if tries > 0 && !pool.free(pool.current as int, now) {
        lemma_rest_stays(PoolView { current: pool.next(), ..pool }, len, now, (tries - 1) as nat);
    }
}

/// Data that fits goes into the current region where that one is free, and the next one is then in
/// turn.
pub proof fn law_regions_are_used_in_turn(pool: PoolView, len: usize, now: u64)
    requires
        pool.wf(),
        pool.slots.len() > 0,
        pool.free(pool.current as int, now),
        len <= pool.region_size,
    ensures
        pool.filled(len, now).1 == (Outcome::Written {
            index: pool.current,
            path: slot_path(pool.prefix, pool.current),
        }),
        pool.filled(len, now).0.current == pool.next(),
{
    assert(pool.slots[pool.current as int].path == slot_path(pool.prefix, pool.current));
}

/// Data that is larger than a region is never written.
pub proof fn law_too_large_data_is_refused(pool: PoolView, len: usize, now: u64)
    requires
        pool.wf(),
        len > pool.region_size,
    ensures
        pool.filled(len, now).1 is Refused,
{
    if pool.slots.len() > 0 {
        lemma_written(pool, len, now, pool.slots.len());
    }
}

/// Two regions have two paths.
pub proof fn law_regions_have_their_own_paths(prefix: Seq<char>, i: nat, j: nat)
    requires
        i != j,
    ensures
        slot_path(prefix, i) != slot_path(prefix, j),
{
    let head = "/"@ + prefix + "_"@;
    assert(slot_path(prefix, i).skip(head.len() as int) =~= decimal(i));
    assert(slot_path(prefix, j).skip(head.len() as int) =~= decimal(j));
    let max = i + j;
    text::lemma_decimal_reads_back(i, max);
    text::lemma_decimal_reads_back(j, max);
}

} // verus!
