//! The numbers that regions of shared memory live by, and how the terminal is asked about them.
use vstd::prelude::*;
use vstd::string::*;

use super::image::{
    image_error_text, released_path, rgb_bytes, shm_result, Image, ImageError, ImageId, ImageState,
    Transmission,
};
use super::kgfx::pool::{
    pool_error_text, process_prefix, slot_path, PoolErrorView, PoolView, SlotView,
    DEFAULT_MIN_REUSE_AGE, DEFAULT_POOL_SIZE, DEFAULT_REGION_SIZE,
};
use super::kgfx::tracker::{
    count_protected, dumps, first_unprotected, less_by, more_by, protected, since, Cleanup, EntryDump,
    EntryView, TrackerView, FORCED_AGE, HARD_LIMIT, LOG_INTERVAL, MIN_AGE, SOFT_LIMIT,
};
use super::terminal_canvas::probe::{ProbeEvent, ProbeStep, ReaderView, MILLISECOND, PROBE_TIMEOUT};
use crate::text::decimal;

verus! {

// ---------------------------------------------------------------------------------------------
// The pool
// ---------------------------------------------------------------------------------------------
/// A pool has ten regions of thirty-two megabytes, each of which rests a second before it is used again; a
/// region has the path of its pool with its number.
pub proof fn law_sizes_of_the_pool(prefix: Seq<char>, i: nat, pid: u32)
    ensures
        DEFAULT_POOL_SIZE == 10,
        DEFAULT_REGION_SIZE == 32 * 1024 * 1024,
        DEFAULT_MIN_REUSE_AGE == 1_000_000_000,
        slot_path(prefix, i) == "/"@ + prefix + "_"@ + decimal(i),
        process_prefix(pid) == "kgfxv2_pool_"@ + decimal(pid as nat),
{
}

/// The regions come in turn, the first behind the last; a region may be used if it never was, or rested long
/// enough; a pool gets as many regions as it is to have, none of them used, and keeps them.
pub proof fn law_turns_of_the_pool(pool: PoolView, i: int, now: u64, used: u64)
    requires
        pool.current < pool.slots.len(),
        0 <= i < pool.slots.len(),
    ensures
        pool.current + 1 < pool.slots.len() ==> pool.next() == pool.current + 1,
        pool.current + 1 == pool.slots.len() ==> pool.next() == 0,
        pool.slots[i].last_used is None ==> pool.free(i, now),
        pool.slots[i].last_used == Some(used) && now >= used ==> (pool.free(i, now) <==> now - used
            >= pool.min_reuse_age),
        pool.slots[i].last_used == Some(used) && now < used && pool.min_reuse_age > 0 ==> !pool.free(
            i,
            now,
        ),
        pool.initialized ==> pool.ready() == pool,
        !pool.initialized ==> pool.ready().initialized && pool.ready().slots.len() == pool.pool_size
            && forall|k: int|
            0 <= k < pool.pool_size ==> #[trigger] pool.ready().slots[k] == (SlotView {
                path: slot_path(pool.prefix, k as nat),
                size: pool.region_size,
                last_used: None,
            }),
{
}

/// What the errors of a pool say.
pub proof fn law_errors_of_the_pool(index: usize, cause: Seq<char>, len: usize, size: usize)
    ensures
        pool_error_text(PoolErrorView::CreateFailed { index, cause }) == "failed to create pool slot "@
            + decimal(index as nat) + ": "@ + cause,
        pool_error_text(PoolErrorView::Empty) == "pool is empty"@,
        pool_error_text(PoolErrorView::TooLarge { len, size }) == "data too large: "@ + decimal(
            len as nat,
        ) + " bytes exceeds slot size of "@ + decimal(size as nat) + " bytes"@,
        pool_error_text(PoolErrorView::InUse)
            == "all pool slots are in use (min reuse age not elapsed)"@,
{
}

// ---------------------------------------------------------------------------------------------
// The tracker
// ---------------------------------------------------------------------------------------------
/// Regions of pages at most two away are protected; more than twenty regions are too many, and more than
/// forty by any means; a second, or five, is old; and a report comes every ten seconds.
pub proof fn law_limits_of_the_tracker(position: i64, current: i64, now: u64, earlier: u64)
    ensures
        SOFT_LIMIT == 20,
        HARD_LIMIT == 40,
        MIN_AGE == 1_000_000_000,
        FORCED_AGE == 5_000_000_000,
        LOG_INTERVAL == 10_000_000_000,
        protected(position, current) <==> position - current <= 2 && current - position <= 2,
        now >= earlier ==> since(now, earlier) == now - earlier,
        now < earlier ==> since(now, earlier) == 0,
{
}

/// Over the soft limit the first region that is not protected goes, where it is old enough, and what comes
/// before it stays in its order.
pub proof fn law_first_unprotected_region_goes(c: Cleanup, current: i64, now: u64, k: int)
    requires
        0 <= k < c.queue.len(),
        forall|j: int|
            0 <= j < k ==> -2 <= #[trigger] c.queue[j].position - current && c.queue[j].position - current
                <= 2,
        !(-2 <= c.queue[k].position - current && c.queue[k].position - current <= 2),
    ensures
        c.soft_due(current, now) <==> c.queue.len() > 20 && since(now, c.queue[k].created)
            >= 1_000_000_000,
        c.soft_due(current, now) ==> c.soft(current, now) == c.without(k).soft(current, now),
        c.without(k).queue == c.queue.remove(k),
        c.without(k).removed == c.removed.push(c.queue[k].path),
        c.total_size >= c.queue[k].size ==> c.without(k).total_size == c.total_size - c.queue[k].size,
        !c.soft_due(current, now) ==> c.soft(current, now) == c,
{
    lemma_first_unprotected_is(c.queue, current, 0, k);
}

proof fn lemma_first_unprotected_is(queue: Seq<EntryView>, current: i64, i: int, k: int)
    requires
        0 <= i <= k < queue.len(),
        forall|j: int|
            i <= j < k ==> -2 <= #[trigger] queue[j].position - current && queue[j].position - current <= 2,
        !(-2 <= queue[k].position - current && queue[k].position - current <= 2),
    ensures
        first_unprotected(queue, current, i) == k,
    decreases k - i,
{
    if i < k {
        assert(-2 <= queue[i].position - current);
        lemma_first_unprotected_is(queue, current, i + 1, k);
    }
}

/// A line of a dump says of a region where it is, how large, which page it belongs to and whether it is
/// protected.
pub proof fn law_dumps_say_what_there_is(d: EntryDump, e: EntryView, current: i64)
    ensures
        dumps(d, e, current) <==> d.path@ == e.path && d.size == e.size && d.position == e.position
            && d.protected == (e.position - current <= 2 && current - e.position <= 2),
{
}

/// Over the hard limit the oldest region goes where it is five seconds old, protected or not.
pub proof fn law_oldest_region_goes(c: Cleanup, now: u64)
    requires
        c.queue.len() > 0,
    ensures
        c.hard_due(now) <==> c.queue.len() > 40 && since(now, c.queue[0].created) >= 5_000_000_000,
        c.hard_due(now) ==> c.hard(now) == c.without(0).hard(now),
        !c.hard_due(now) ==> c.hard(now) == c,
{
}

/// A region that came is the last of the queue where nothing is removed; sizes add up and are taken off
/// again; and a report counts what there is.
pub proof fn law_regions_are_counted(t: TrackerView, entry: EntryView, a: usize, b: usize)
    requires
        t.queue.len() < 20,
        t.total_size + entry.size <= usize::MAX,
    ensures
        t.with(entry).queue == t.queue.push(entry),
        t.with(entry).total_size == t.total_size + entry.size,
        t.cleaned(entry).removed.len() == 0,
        t.with(entry).position == t.position,
        a + b <= usize::MAX ==> more_by(a, b) == a + b && less_by(more_by(a, b), b) == a,
        t.report_due(entry.created) <==> since(entry.created, t.last_log) >= 10_000_000_000,
        t.report_due(entry.created) ==> t.with(entry).last_log == entry.created,
        !t.report_due(entry.created) ==> t.with(entry).last_log == t.last_log,
        t.stats().regions == t.queue.len(),
        t.stats().total_size == t.total_size,
        t.stats().position == t.position,
        ({
            let more = count_protected(t.queue.push(entry), t.position, t.queue.len() + 1);
            let before = count_protected(t.queue, t.position, t.queue.len());
            &&& protected(entry.position, t.position) ==> more == before + 1
            &&& !protected(entry.position, t.position) ==> more == before
        }),
{
    lemma_count_before(t.queue, entry, t.position, t.queue.len());
}

proof fn lemma_count_before(queue: Seq<EntryView>, entry: EntryView, current: i64, n: nat)
    requires
        n <= queue.len(),
    ensures
        count_protected(queue.push(entry), current, n) == count_protected(queue, current, n),
    decreases n,
{
    if n > 0 {
        lemma_count_before(queue, entry, current, (n - 1) as nat);
        assert(queue.push(entry)[n - 1] == queue[n - 1]);
    }
}

// ---------------------------------------------------------------------------------------------
// The question to the terminal
// ---------------------------------------------------------------------------------------------
/// An answer is awaited for eight tenths of a second: input is waited for as long as time is left, looked at
/// when it comes, and the wait ends with an answer, at the end of the input, in time, or with a failure.
pub proof fn law_answer_is_awaited(r: ReaderView, now: u64, answer: bool, bytes: Vec<u8>)
    ensures
        PROBE_TIMEOUT == 800 * MILLISECOND,
        MILLISECOND == 1_000_000,
        r.after(ProbeEvent::PollFailed) == (r, ProbeStep::Failed),
        r.after(ProbeEvent::ReadFailed) == (r, ProbeStep::Failed),
        r.after(ProbeEvent::NoInput) == (r, ProbeStep::Done { answer: None }),
        bytes@.len() == 0 ==> r.after(ProbeEvent::Input { bytes }) == (
            r,
            ProbeStep::Done { answer: None },
        ),
        bytes@.len() > 0 ==> r.after(ProbeEvent::Input { bytes }) == (
            ReaderView { buffer: r.buffer + bytes@, ..r },
            ProbeStep::Parse,
        ),
        r.after(ProbeEvent::Parsed { answer: Some(answer) }) == (
            r,
            ProbeStep::Done { answer: Some(answer) },
        ),
        r.after(ProbeEvent::Parsed { answer: None }) == (r, ProbeStep::ReadClock),
        since(now, r.start) >= r.timeout ==> r.after(ProbeEvent::Clock { now }) == (
            r,
            ProbeStep::Done { answer: None },
        ),
        since(now, r.start) < r.timeout && (r.timeout - since(now, r.start)) / 1_000_000 <= i32::MAX
            ==> r.after(ProbeEvent::Clock { now }) == (
            r,
            ProbeStep::Poll {
                timeout_ms: ((r.timeout - since(now, r.start)) / 1_000_000) as i32,
            },
        ),
{
}

// ---------------------------------------------------------------------------------------------
// Images
// ---------------------------------------------------------------------------------------------
/// An image goes through shared memory only with three bytes for each of its pixels, and the errors say
/// what is wrong.
pub proof fn law_images_have_all_their_pixels(
    r: Result<(Image, usize), ImageError>,
    len: nat,
    width: u32,
    height: u32,
    region: Result<String, String>,
    id: ImageId,
)
    requires
        shm_result(r, len, width, height, region, id),
    ensures
        rgb_bytes(width, height) == 3 * (width * height),
        r is Ok <==> len == 3 * (width * height) && 3 * (width * height) <= u32::MAX && region is Ok,
        r is Ok ==> r->Ok_0.1 == len && r->Ok_0.0.id == id && r->Ok_0.0.dimensions.width == width
            && r->Ok_0.0.dimensions.height == height && r->Ok_0.0.transmission is SharedMemory,
        image_error_text(ImageError::SizeOverflow) == "RGB size overflow"@,
        image_error_text(ImageError::SizeMismatch) == "RGB buffer size mismatch"@,
        r is Err && 3 * (width * height) > u32::MAX ==> r->Err_0 is SizeOverflow,
        r is Err && 3 * (width * height) <= u32::MAX && len != 3 * (width * height) ==> r->Err_0
            is SizeMismatch,
        r is Err && 3 * (width * height) <= u32::MAX && len == 3 * (width * height) ==> region is Err
            && image_error_text(r->Err_0) == region->Err_0@,
{
    assert(width * height * 3 == 3 * (width * height)) by (nonlinear_arith);
}

/// An image that is at the terminal, or goes inside the command, leaves no region behind.
pub proof fn law_sent_images_leave_nothing(id: ImageId, image: Image)
    ensures
        released_path(ImageState::Uploaded(id)) is None,
        image.transmission is Direct ==> released_path(ImageState::Queued(image)) is None,
        image.transmission matches Transmission::SharedMemory { shm: Some(lease) } ==> (released_path(
            ImageState::Queued(image),
        ) is Some <==> lease@.owned && lease@.path.len() > 0),
{
}

} // verus!
