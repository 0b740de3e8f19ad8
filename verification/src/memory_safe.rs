//! The memory guard: bounded pools of reusable buffers, usage accounting,
//! health thresholds and leak diagnostics.
//!
//! Usage counters wrap around as atomic counters do; what is compared
//! against a limit is compared without wrapping.

use crate::utils::text::decimal;
use crate::utils::text::push_decimal;
use crate::utils::time::current_timestamp_ms;
use std::collections::HashMap;
use std::collections::VecDeque;
use vstd::prelude::*;
use vstd::std_specs::hash::spec_hash_map_iter;
use vstd::std_specs::iter::IteratorSpec;
use vstd::string::*;

verus! {

/// Bytes in one mebibyte.
pub const BYTES_PER_MB: usize = 1048576;

/// An allocation that is held for longer than this many milliseconds is
/// reported as a suspected leak.
pub const LEAK_AFTER_MS: u64 = 300000;

/// An operation that takes longer than this many milliseconds is slow.
pub const SLOW_AFTER_MS: u64 = 10000;

/// The bytes of one frame of 1920 by 1080 pixels with four bytes a pixel.
pub const FRAME_SLOT_BYTES: usize = 8294400;

/// `x + y` as a wrapping counter has it.
pub open spec fn wrapping_sum(x: usize, y: usize) -> usize {
    if x + y > usize::MAX {
        (x + y - usize::MAX - 1) as usize
    } else {
        (x + y) as usize
    }
}

/// `x - y` as a wrapping counter has it.
pub open spec fn wrapping_difference(x: usize, y: usize) -> usize {
    if x < y {
        (x - y + usize::MAX + 1) as usize
    } else {
        (x - y) as usize
    }
}

/// `x + y` as a wrapping counter has it.
pub fn counter_add(x: usize, y: usize) -> (sum: usize)
    ensures
        sum == wrapping_sum(x, y),
{
    if x <= usize::MAX - y {
        x + y
    } else {
        x - (usize::MAX - y) - 1
    }
}

/// `x - y` as a wrapping counter has it.
pub fn counter_sub(x: usize, y: usize) -> (difference: usize)
    ensures
        difference == wrapping_difference(x, y),
{
    if x >= y {
        x - y
    } else {
        usize::MAX - (y - x) + 1
    }
}

/// A bounded pool of reusable items.
pub struct MemoryPool<T> {
    pool: Vec<Box<T>>,
    max_size: usize,
    allocations: usize,
}

impl<T> MemoryPool<T> {
    /// The items that wait to be reused; the next one to go out is the last.
    pub closed spec fn idle(&self) -> Seq<Box<T>> {
        self.pool@
    }

    /// The most items that wait, and the ceiling for fresh items.
    pub closed spec fn max_size(&self) -> usize {
        self.max_size
    }

    /// The number of items that are out.
    pub closed spec fn allocations(&self) -> usize {
        self.allocations
    }

    /// An empty pool.
    pub fn new(max_size: usize) -> (pool: MemoryPool<T>)
        ensures
            pool.idle() == Seq::<Box<T>>::empty(),
            pool.max_size() == max_size,
            pool.allocations() == 0,
    {
        MemoryPool { pool: Vec::new(), max_size, allocations: 0 }
    }

    /// Whether `acquire` hands out an item: one waits, or fewer items are
    /// out than the ceiling allows.
    pub open spec fn can_acquire(&self) -> bool {
        self.idle().len() > 0 || self.allocations() < self.max_size()
    }

    /// Hands out the item that was released last, or a fresh one while
    /// fewer items are out than the ceiling allows, or nothing.
    pub fn acquire(&mut self) -> (item: Option<Box<T>>) where T: Default
        ensures
            final(self).max_size() == old(self).max_size(),
            item is Some <==> old(self).can_acquire(),
            old(self).idle().len() > 0 ==> item == Some(old(self).idle().last()) && final(self).idle() == old(self).idle().drop_last(),
            old(self).idle().len() == 0 ==> final(self).idle() == old(self).idle(),
            old(self).idle().len() == 0 && old(self).can_acquire() ==> (item matches Some(fresh)
                && call_ensures(T::default, (), *fresh)),
            final(self).allocations() == if old(self).can_acquire() {
                wrapping_sum(old(self).allocations(), 1)
            } else {
                old(self).allocations()
            },
    {
        if self.pool.len() > 0 {
            let item = self.pool.pop();
            self.allocations = counter_add(self.allocations, 1);
            item
        } else if self.allocations < self.max_size {
            self.allocations = counter_add(self.allocations, 1);
            Some(Box::new(T::default()))
        } else {
            None
        }
    }

    /// Takes an item back: it waits for reuse unless the pool is full, in
    /// which case it is let go. One item fewer is out.
    pub fn release(&mut self, item: Box<T>)
        ensures
            final(self).max_size() == old(self).max_size(),
            final(self).allocations() == wrapping_difference(old(self).allocations(), 1),
            final(self).idle() == if old(self).idle().len() < old(self).max_size() {
                old(self).idle().push(item)
            } else {
                old(self).idle()
            },
    {
        if self.pool.len() < self.max_size {
            self.pool.push(item);
        }
        self.allocations = counter_sub(self.allocations, 1);
    }

    /// The number of items that wait to be reused.
    pub fn idle_count(&self) -> (n: usize)
        ensures
            n == self.idle().len(),
    {
        self.pool.len()
    }

    /// The number of items that are out.
    pub fn get_allocations(&self) -> (n: usize)
        ensures
            n == self.allocations(),
    {
        self.allocations
    }
}

/// A pool of frame buffers of one size under a memory budget.
pub struct FrameBufferManager {
    buffers: VecDeque<Vec<u8>>,
    max_buffers: usize,
    buffer_size: usize,
    memory_usage: usize,
    max_memory: usize,
}

impl FrameBufferManager {
    /// The buffers that wait to be reused, the oldest first.
    pub closed spec fn buffers(&self) -> Seq<Vec<u8>> {
        self.buffers@
    }

    /// The most buffers that wait.
    pub closed spec fn max_buffers(&self) -> usize {
        self.max_buffers
    }

    /// The size of a fresh buffer, and what one buffer counts for.
    pub closed spec fn buffer_size(&self) -> usize {
        self.buffer_size
    }

    /// The bytes that are counted as in use.
    pub closed spec fn memory_usage(&self) -> usize {
        self.memory_usage
    }

    /// The budget in bytes.
    pub closed spec fn max_memory(&self) -> usize {
        self.max_memory
    }

    /// Whether sizes and limits are those of `pre`.
    pub open spec fn same_settings(&self, pre: &FrameBufferManager) -> bool {
        &&& self.max_buffers() == pre.max_buffers()
        &&& self.buffer_size() == pre.buffer_size()
        &&& self.max_memory() == pre.max_memory()
    }

    /// Whether one more buffer fits in the budget.
    pub open spec fn has_room(&self) -> bool {
        self.memory_usage() + self.buffer_size() <= self.max_memory()
    }

    /// The buffers that wait after a garbage collection: the newest quarter
    /// of `max_buffers`.
    pub open spec fn collected(&self) -> Seq<Vec<u8>> {
        let keep = (self.max_buffers() / 4) as int;
        if self.buffers().len() > keep {
            self.buffers().skip(self.buffers().len() - keep)
        } else {
            self.buffers()
        }
    }

    /// An empty pool with a budget of `max_memory_mb` mebibytes.
    pub fn new(max_buffers: usize, buffer_size: usize, max_memory_mb: usize) -> (manager:
        FrameBufferManager)
        requires
            max_memory_mb * BYTES_PER_MB <= usize::MAX,
        ensures
            manager.buffers() == Seq::<Vec<u8>>::empty(),
            manager.max_buffers() == max_buffers,
            manager.buffer_size() == buffer_size,
            manager.memory_usage() == 0,
            manager.max_memory() == max_memory_mb * BYTES_PER_MB,
    {
        FrameBufferManager {
            buffers: VecDeque::new(),
            max_buffers,
            buffer_size,
            memory_usage: 0,
            max_memory: max_memory_mb * BYTES_PER_MB,
        }
    }

    /// Hands out a buffer: the oldest that waits, or a fresh one of
    /// `buffer_size` zero bytes. Where one more buffer does not fit in the
    /// budget, nothing is handed out and garbage is collected instead.
    pub fn get_buffer(&mut self) -> (buffer: Option<Vec<u8>>)
        ensures
            final(self).same_settings(old(self)),
            buffer is Some <==> old(self).has_room(),
            !old(self).has_room() ==> final(self).buffers() == old(self).collected() && final(self).memory_usage() == old(self).memory_usage(),
            old(self).has_room() ==> final(self).memory_usage() == old(self).memory_usage() + old(self).buffer_size(),
            old(self).has_room() && old(self).buffers().len() > 0 ==> buffer == Some(
                old(self).buffers()[0],
            ) && final(self).buffers() == old(self).buffers().remove(0),
            old(self).has_room() && old(self).buffers().len() == 0 ==> final(self).buffers() == old(self).buffers(),
            old(self).has_room() && old(self).buffers().len() == 0 ==> (buffer matches Some(b)
                && b@ == Seq::new(old(self).buffer_size() as nat, |i: int| 0u8)),
    {
        if self.buffer_size > self.max_memory || self.memory_usage > self.max_memory
            - self.buffer_size {
            self.collect_garbage();
            return None;
        }
        self.memory_usage = self.memory_usage + self.buffer_size;
        if self.buffers.len() > 0 {
            let waiting = self.buffers.pop_front();
            proof {
                assert(self.buffers() =~= old(self).buffers().remove(0));
            }
            waiting
        } else {
            let fresh = zeroed_buffer(self.buffer_size);
            Some(fresh)
        }
    }

    /// Takes a buffer back: it waits for reuse unless enough buffers wait
    /// already. One buffer fewer is counted as in use.
    pub fn return_buffer(&mut self, buffer: Vec<u8>)
        ensures
            final(self).same_settings(old(self)),
            final(self).memory_usage() == wrapping_difference(
                old(self).memory_usage(),
                old(self).buffer_size(),
            ),
            final(self).buffers() == if old(self).buffers().len() < old(self).max_buffers() {
                old(self).buffers().push(buffer)
            } else {
                old(self).buffers()
            },
    {
        if self.buffers.len() < self.max_buffers {
            self.buffers.push_back(buffer);
        }
        self.memory_usage = counter_sub(self.memory_usage, self.buffer_size);
    }

    /// Lets the oldest waiting buffers go until a quarter of `max_buffers`
    /// is left.
    pub fn collect_garbage(&mut self)
        ensures
            final(self).same_settings(old(self)),
            final(self).memory_usage() == old(self).memory_usage(),
            final(self).buffers() == old(self).collected(),
    {
        let keep = self.max_buffers / 4;
        let ghost before = self.buffers();
        let ghost mut gone: int = 0;
        proof {
            assert(before.skip(0) =~= before);
        }
        while self.buffers.len() > keep
            invariant
                before == old(self).buffers(),
                keep == old(self).max_buffers() / 4,
                self.same_settings(old(self)),
                self.memory_usage() == old(self).memory_usage(),
                0 <= gone <= before.len(),
                self.buffers() == before.skip(gone),
                gone > 0 ==> before.len() - gone >= keep,
            decreases self.buffers.len(),
        {
            let _ = self.buffers.pop_front();
            proof {
                assert(self.buffers() =~= before.skip(gone + 1));
                gone = gone + 1;
            }
        }
    }

    /// The bytes that are counted as in use.
    pub fn get_memory_usage(&self) -> (bytes: usize)
        ensures
            bytes == self.memory_usage(),
    {
        self.memory_usage
    }

    /// The mebibytes that are counted as in use, rounded down.
    pub fn get_memory_usage_mb(&self) -> (mb: usize)
        ensures
            mb == self.memory_usage() / BYTES_PER_MB,
    {
        self.memory_usage / BYTES_PER_MB
    }

    /// The number of buffers that wait to be reused.
    pub fn get_buffer_count(&self) -> (n: usize)
        ensures
            n == self.buffers().len(),
    {
        self.buffers.len()
    }
}

/// A buffer of `len` zero bytes.
pub fn zeroed_buffer(len: usize) -> (buffer: Vec<u8>)
    ensures
        buffer@ == Seq::new(len as nat, |i: int| 0u8),
{
    let mut buffer: Vec<u8> = Vec::new();
    let mut i: usize = 0;
    while i < len
        invariant
            i <= len,
            buffer@ == Seq::new(i as nat, |k: int| 0u8),
        decreases len - i,
    {
        buffer.push(0);
        i = i + 1;
        proof {
            assert(buffer@ =~= Seq::new(i as nat, |k: int| 0u8));
        }
    }
    buffer
}

/// Whether a buffer of `size` bytes can be laid out at `alignment`: the
/// alignment is a power of two, and the size rounded up to a multiple of it
/// is at most the largest `isize`.
pub open spec fn layout_is_valid(size: usize, alignment: usize) -> bool {
    &&& crate::utils::alignment::is_power_of_two(alignment)
    &&& size + alignment - 1 <= isize::MAX
}

/// A zeroed buffer with the alignment that it is meant for.
pub struct AlignedBuffer {
    data: Vec<u8>,
    alignment: usize,
}

impl AlignedBuffer {
    /// The bytes of the buffer.
    pub closed spec fn bytes(&self) -> Seq<u8> {
        self.data@
    }

    /// The alignment that the buffer is meant for.
    pub closed spec fn alignment(&self) -> usize {
        self.alignment
    }

    /// A buffer of `size` zero bytes for the given alignment, or "Invalid
    /// layout" where such a buffer cannot be laid out.
    pub fn new(size: usize, alignment: usize) -> (made: Result<AlignedBuffer, &'static str>)
        ensures
            made is Ok <==> layout_is_valid(size, alignment),
            made matches Ok(buffer) ==> buffer.bytes() == Seq::new(size as nat, |i: int| 0u8)
                && buffer.alignment() == alignment,
            made matches Err(message) ==> message@ == "Invalid layout"@,
    {
        if alignment == 0 || alignment & (alignment - 1) != 0 {
            return Err("Invalid layout");
        }
        if alignment - 1 > isize::MAX as usize || size > isize::MAX as usize - (alignment - 1) {
            return Err("Invalid layout");
        }
        Ok(AlignedBuffer { data: zeroed_buffer(size), alignment })
    }

    /// The length of the buffer in bytes.
    pub fn len(&self) -> (n: usize)
        ensures
            n == self.bytes().len(),
    {
        self.data.len()
    }

    /// The bytes of the buffer.
    pub fn as_slice(&self) -> (bytes: &[u8])
        ensures
            bytes@ == self.bytes(),
    {
        self.data.as_slice()
    }

    /// The bytes of the buffer, to change.
    pub fn as_mut_slice(&mut self) -> (bytes: &mut [u8])
        ensures
            bytes@ == old(self).bytes(),
            final(self).bytes() == final(bytes)@,
            final(self).alignment() == old(self).alignment(),
    {
        self.data.as_mut_slice()
    }
}

/// What the leak detector knows of an allocation.
#[derive(Debug, Clone)]
pub struct AllocationInfo {
    pub size: usize,
    pub backtrace: String,
    /// When the allocation was tracked, in milliseconds.
    pub time: u64,
}

/// Whether an allocation has been held for longer than `LEAK_AFTER_MS` at
/// `now`.
pub open spec fn is_leak(info: AllocationInfo, now: u64) -> bool {
    now > info.time && now - info.time > LEAK_AFTER_MS
}

/// The ids of the suspected leaks among the tracked allocations.
pub open spec fn leak_ids(records: Map<usize, AllocationInfo>, now: u64) -> Set<usize> {
    Set::new(|id: usize| records.contains_key(id) && is_leak(records[id], now))
}

/// The id under which a line of a report stands.
pub open spec fn reported_id(leak: (usize, AllocationInfo)) -> usize {
    leak.0
}

/// The ids that a report lists, in its order.
pub open spec fn reported_ids(report: Seq<(usize, AllocationInfo)>) -> Seq<usize> {
    report.map_values(|leak: (usize, AllocationInfo)| reported_id(leak))
}

/// Whether a report lists each suspected leak among the tracked
/// allocations once, under its id and with what is known of it. In which
/// order they stand is left open.
pub open spec fn reports(
    report: Seq<(usize, AllocationInfo)>,
    records: Map<usize, AllocationInfo>,
    now: u64,
) -> bool {
    &&& reported_ids(report).no_duplicates()
    &&& reported_ids(report).to_set() == leak_ids(records, now)
    &&& forall|i: int|
        0 <= i < report.len() ==> {
            let leak = #[trigger] report[i];
            &&& records.contains_key(leak.0)
            &&& leak.1.size == records[leak.0].size
            &&& leak.1.time == records[leak.0].time
            &&& leak.1.backtrace@ == records[leak.0].backtrace@
        }
}

/// Whether `post` is `pre` with an allocation of `size` bytes, made at
/// `now`, tracked under the id.
pub open spec fn allocation_added(
    pre: Map<usize, AllocationInfo>,
    post: Map<usize, AllocationInfo>,
    id: usize,
    size: usize,
    now: u64,
) -> bool {
    &&& post == pre.insert(id, post[id])
    &&& post[id].size == size
    &&& post[id].time == now
    &&& post[id].backtrace@ == backtrace_text(now)
}

/// The note that stands in for a backtrace taken at `now`.
pub open spec fn backtrace_text(now: u64) -> Seq<char> {
    "Backtrace at "@ + decimal(now as nat) + "ms"@
}

/// A report lists as many allocations as there are suspected leaks.
pub proof fn lemma_report_length(
    report: Seq<(usize, AllocationInfo)>,
    records: Map<usize, AllocationInfo>,
    now: u64,
)
    requires
        reports(report, records, now),
    ensures
        report.len() == leak_ids(records, now).len(),
{
    reported_ids(report).unique_seq_to_set();
}

/// Keeps track of allocations and reports those that are held for long.
pub struct LeakDetector {
    allocations: HashMap<usize, AllocationInfo>,
    next_id: usize,
}

impl LeakDetector {
    /// The tracked allocations, each under its id.
    pub closed spec fn records(&self) -> Map<usize, AllocationInfo> {
        self.allocations@
    }

    /// The id that the next allocation gets.
    pub closed spec fn next_id(&self) -> usize {
        self.next_id
    }

    /// The invariant: finitely many allocations are tracked.
    pub open spec fn wf(&self) -> bool {
        self.records().dom().finite()
    }

    /// A detector that tracks nothing; ids start at 1.
    pub fn new() -> (detector: LeakDetector)
        ensures
            detector.wf(),
            detector.records() == Map::<usize, AllocationInfo>::empty(),
            detector.next_id() == 1,
    {
        broadcast use vstd::std_specs::hash::group_hash_axioms;

        LeakDetector { allocations: HashMap::new(), next_id: 1 }
    }

    /// The note that stands in for a backtrace taken at `now`.
    pub fn capture_backtrace_at(now: u64) -> (note: String)
        ensures
            note@ == backtrace_text(now),
    {
        let mut note = String::from_str("Backtrace at ");
        push_decimal(&mut note, now as u128);
        note.append("ms");
        note
    }

    /// Tracks an allocation of `size` bytes made at `now` and returns its
    /// id. Ids count up and wrap around; an allocation that still has the
    /// id is replaced.
    pub fn track_allocation_at(&mut self, size: usize, now: u64) -> (id: usize)
        requires
            old(self).wf(),
        ensures
            final(self).wf(),
            id == old(self).next_id(),
            final(self).next_id() == wrapping_sum(old(self).next_id(), 1),
            allocation_added(old(self).records(), final(self).records(), id, size, now),
    {
        broadcast use vstd::std_specs::hash::group_hash_axioms;

        let id = self.next_id;
        self.next_id = counter_add(self.next_id, 1);
        let info = AllocationInfo {
            size,
            backtrace: LeakDetector::capture_backtrace_at(now),
            time: now,
        };
        let _ = self.allocations.insert(id, info);
        id
    }

    /// Tracks an allocation made at the time that the clock shows.
    pub fn track_allocation(&mut self, size: usize) -> (id: usize)
        requires
            old(self).wf(),
        ensures
            final(self).wf(),
            id == old(self).next_id(),
            final(self).next_id() == wrapping_sum(old(self).next_id(), 1),
            allocation_added(
                old(self).records(),
                final(self).records(),
                id,
                size,
                final(self).records()[id].time,
            ),
    {
        let now = current_timestamp_ms();
        self.track_allocation_at(size, now)
    }

    /// Forgets the allocation with the id. Says whether it was tracked.
    pub fn track_deallocation(&mut self, id: usize) -> (was_tracked: bool)
        requires
            old(self).wf(),
        ensures
            final(self).wf(),
            was_tracked == old(self).records().contains_key(id),
            final(self).records() == old(self).records().remove(id),
            final(self).next_id() == old(self).next_id(),
    {
        broadcast use vstd::std_specs::hash::group_hash_axioms;

        self.allocations.remove(&id).is_some()
    }

    /// The allocations that have been held for longer than `LEAK_AFTER_MS`
    /// at `now`, each once.
    pub fn report_leaks_at(&self, now: u64) -> (leaks: Vec<(usize, AllocationInfo)>)
        ensures
            reports(leaks@, self.records(), now),
    {
        broadcast use vstd::std_specs::hash::group_hash_axioms;

        let mut leaks: Vec<(usize, AllocationInfo)> = Vec::new();
        let ghost mut from: Seq<int> = Seq::empty();
        for pair in walk: self.allocations.iter()
            invariant
                walk.seq() == spec_hash_map_iter(&self.allocations).remaining(),
                walk.seq().no_duplicates(),
                reported_ids(leaks@).no_duplicates(),
                from.len() == leaks@.len(),
                forall|i: int|
                    0 <= i < leaks@.len() ==> {
                        &&& 0 <= #[trigger] from[i] < walk.index()
                        &&& *walk.seq()[from[i]].0 == leaks@[i].0
                        &&& is_leak(*walk.seq()[from[i]].1, now)
                        &&& leaks@[i].1.size == walk.seq()[from[i]].1.size
                        &&& leaks@[i].1.time == walk.seq()[from[i]].1.time
                        &&& leaks@[i].1.backtrace@ == walk.seq()[from[i]].1.backtrace@
                    },
                forall|j: int|
                    0 <= j < walk.index() && is_leak(*(#[trigger] walk.seq()[j]).1, now)
                        ==> reported_ids(leaks@).contains(*walk.seq()[j].0),
        {
            let (id, info) = pair;
            let ghost at = walk.index();
            let ghost pairs = walk.seq();
            assert(pair == pairs[at]);
            if now > info.time && now - info.time > LEAK_AFTER_MS {
                let ghost before = leaks@;
                proof {
                    assert forall|i: int| 0 <= i < before.len() implies (
                    #[trigger] before[i]).0 != *id by {
                        let j = from[i];
                        if *pairs[j].0 == *id {
                            assert(self.allocations@[*pairs[j].0] == *pairs[j].1);
                            assert(self.allocations@[*pairs[at].0] == *pairs[at].1);
                            assert(pairs[j] == pairs[at]);
                        }
                    }
                    from = from.push(at);
                }
                leaks.push(
                    (
                        *id,
                        AllocationInfo {
                            size: info.size,
                            backtrace: info.backtrace.clone(),
                            time: info.time,
                        },
                    ),
                );
                proof {
                    let ids = reported_ids(leaks@);
                    assert(ids =~= reported_ids(before).push(*id));
                    assert forall|i: int, j: int| 0 <= i < j < ids.len() implies ids[i]
                        != ids[j] by {
                        if j == before.len() {
                            assert(before[i].0 != *id);
                        } else {
                            assert(reported_ids(before)[i] != reported_ids(before)[j]);
                        }
                    }
                    assert forall|j: int|
                        0 <= j < at + 1 && is_leak(*(#[trigger] pairs[j]).1, now) implies ids.contains(
                        *pairs[j].0,
                    ) by {
                        if j < at {
                            let w = choose|w: int|
                                0 <= w < before.len() && reported_ids(before)[w] == *pairs[j].0;
                            assert(ids[w] == *pairs[j].0);
                        } else {
                            assert(ids[before.len() as int] == *pairs[j].0);
                        }
                    }
                }
            }
        }
        proof {
            let pairs = spec_hash_map_iter(&self.allocations).remaining();
            let records = self.records();
            let ids = reported_ids(leaks@);
            assert forall|i: int| 0 <= i < leaks@.len() implies {
                let leak = #[trigger] leaks@[i];
                &&& records.contains_key(leak.0)
                &&& is_leak(records[leak.0], now)
                &&& leak.1.size == records[leak.0].size
                &&& leak.1.time == records[leak.0].time
                &&& leak.1.backtrace@ == records[leak.0].backtrace@
            } by {
                let j = from[i];
                assert(records.contains_key(*pairs[j].0));
                assert(records[*pairs[j].0] == *pairs[j].1);
            }
            assert forall|id: usize| ids.to_set().contains(id) <==> leak_ids(records, now).contains(
                id,
            ) by {
                if ids.contains(id) {
                    let w = choose|w: int| 0 <= w < ids.len() && ids[w] == id;
                    assert(leaks@[w].0 == id);
                }
                if records.contains_key(id) && is_leak(records[id], now) {
                    assert(pairs.contains((&id, &records[id])));
                    let j = choose|j: int| 0 <= j < pairs.len() && pairs[j] == (&id, &records[id]);
                    assert(is_leak(*pairs[j].1, now));
                    assert(ids.contains(*pairs[j].0));
                }
            }
            assert(ids.to_set() =~= leak_ids(records, now));
        }
        leaks
    }

    /// The allocations that have been held for long at the time that the
    /// clock shows.
    pub fn report_leaks(&self) -> (leaks: Vec<(usize, AllocationInfo)>)
        ensures
            exists|now: u64| #[trigger] reports(leaks@, self.records(), now),
    {
        let now = current_timestamp_ms();
        let leaks = self.report_leaks_at(now);
        proof {
            assert(reports(leaks@, self.records(), now));
        }
        leaks
    }

    /// The number of tracked allocations.
    pub fn tracked_count(&self) -> (n: usize)
        ensures
            n == self.records().len(),
    {
        broadcast use vstd::std_specs::hash::group_hash_axioms;

        self.allocations.len()
    }
}


/// An item that was taken from a pool and goes back to it when it is
/// released.
pub struct SmartFrame<T> {
    data: Option<Box<T>>,
}

impl<T> SmartFrame<T> {
    /// The item that the frame holds.
    pub closed spec fn item(&self) -> Option<Box<T>> {
        self.data
    }

    /// Takes an item from the pool; nothing where the pool hands none out.
    pub fn new(pool: &mut MemoryPool<T>) -> (frame: Option<SmartFrame<T>>) where T: Default
        ensures
            final(pool).max_size() == old(pool).max_size(),
            frame is Some <==> old(pool).can_acquire(),
            frame matches Some(f) ==> f.item() is Some,
            old(pool).idle().len() > 0 ==> (frame matches Some(f) && f.item() == Some(
                old(pool).idle().last(),
            )) && final(pool).idle() == old(pool).idle().drop_last(),
            old(pool).idle().len() == 0 ==> final(pool).idle() == old(pool).idle(),
            final(pool).allocations() == if old(pool).can_acquire() {
                wrapping_sum(old(pool).allocations(), 1)
            } else {
                old(pool).allocations()
            },
    {
        match pool.acquire() {
            Some(data) => Some(SmartFrame { data: Some(data) }),
            None => None,
        }
    }

    /// The item, to read.
    pub fn as_ref(&self) -> (item: Option<&T>)
        ensures
            match self.item() {
                Some(b) => item == Some(&*b),
                None => item is None,
            },
    {
        match &self.data {
            Some(b) => Some(&**b),
            None => None,
        }
    }

    /// The item, to change.
    pub fn as_mut(&mut self) -> (item: Option<&mut T>)
        ensures
            old(self).item() is None ==> item is None && final(self).item() is None,
            old(self).item() matches Some(b) ==> (item matches Some(r) && *r == *b && final(self).item() == Some(Box::new(*final(r)))),
    {
        match &mut self.data {
            Some(b) => Some(&mut **b),
            None => None,
        }
    }

    /// Gives the item back to the pool.
    pub fn release(self, pool: &mut MemoryPool<T>)
        ensures
            final(pool).max_size() == old(pool).max_size(),
            self.item() is None ==> final(pool).idle() == old(pool).idle() && final(pool).allocations() == old(pool).allocations(),
            self.item() matches Some(b) ==> final(pool).allocations() == wrapping_difference(
                old(pool).allocations(),
                1,
            ) && final(pool).idle() == if old(pool).idle().len() < old(pool).max_size() {
                old(pool).idle().push(b)
            } else {
                old(pool).idle()
            },
    {
        match self.data {
            Some(b) => {
                pool.release(b);
            },
            None => {},
        }
    }
}

/// An operation whose duration is watched.
#[derive(Debug, Clone)]
pub struct TrackedOperation {
    pub id: usize,
    pub name: String,
    pub size: usize,
    /// When the operation began, in milliseconds.
    pub start_time: u64,
}

impl TrackedOperation {
    /// An operation that began at `now`.
    pub fn new_at(id: usize, name: String, size: usize, now: u64) -> (operation: TrackedOperation)
        ensures
            operation == (TrackedOperation { id, name, size, start_time: now }),
    {
        TrackedOperation { id, name, size, start_time: now }
    }

    /// An operation that begins at the time that the clock shows.
    pub fn new(id: usize, name: String, size: usize) -> (operation: TrackedOperation)
        ensures
            operation.id == id,
            operation.name == name,
            operation.size == size,
    {
        TrackedOperation::new_at(id, name, size, current_timestamp_ms())
    }

    /// Whether the operation has taken longer than `SLOW_AFTER_MS` at `now`.
    pub fn is_slow_at(&self, now: u64) -> (slow: bool)
        ensures
            slow == (now > self.start_time && now - self.start_time > SLOW_AFTER_MS),
    {
        now > self.start_time && now - self.start_time > SLOW_AFTER_MS
    }
}

/// How close the memory in use is to its limit.
#[derive(Debug, Clone, Copy, PartialEq, Eq)]
pub enum MemoryHealth {
    Healthy,
    Warning,
    Critical,
}

/// Figures of the memory guard.
#[derive(Debug, Clone, Copy, PartialEq, Eq)]
pub struct MemoryStats {
    pub current_mb: usize,
    pub limit_mb: usize,
    pub buffer_count: usize,
    pub leak_count: usize,
}

/// The health of `usage` bytes in use under a limit of `limit_mb`
/// mebibytes: critical from `critical` percent of the limit on, a warning
/// from `warning` percent on, healthy below.
pub open spec fn health_of(usage: int, limit_mb: int, warning: u32, critical: u32) -> MemoryHealth {
    if usage * 100 >= critical * limit_mb * BYTES_PER_MB {
        MemoryHealth::Critical
    } else if usage * 100 >= warning * limit_mb * BYTES_PER_MB {
        MemoryHealth::Warning
    } else {
        MemoryHealth::Healthy
    }
}

/// The health of `usage` bytes in use under a limit of `limit_mb`
/// mebibytes.
pub fn classify_health(usage: usize, limit_mb: usize, warning: u32, critical: u32) -> (health:
    MemoryHealth)
    ensures
        health == health_of(usage as int, limit_mb as int, warning, critical),
{
    assert(critical * limit_mb <= 0xFFFF_FFFF * 0xFFFF_FFFF_FFFF_FFFF) by (nonlinear_arith)
        requires
            0 <= critical <= 0xFFFF_FFFF,
            0 <= limit_mb <= 0xFFFF_FFFF_FFFF_FFFF,
    ;
    assert(warning * limit_mb <= 0xFFFF_FFFF * 0xFFFF_FFFF_FFFF_FFFF) by (nonlinear_arith)
        requires
            0 <= warning <= 0xFFFF_FFFF,
            0 <= limit_mb <= 0xFFFF_FFFF_FFFF_FFFF,
    ;
    let used: u128 = (usage as u128) * 100;
    let critical_from: u128 = (critical as u128) * (limit_mb as u128) * (BYTES_PER_MB as u128);
    let warning_from: u128 = (warning as u128) * (limit_mb as u128) * (BYTES_PER_MB as u128);
    if used >= critical_from {
        MemoryHealth::Critical
    } else if used >= warning_from {
        MemoryHealth::Warning
    } else {
        MemoryHealth::Healthy
    }
}

/// Whether new chunks and new pre-decode tasks are to be held back.
pub fn must_apply_backpressure(health: MemoryHealth) -> (hold: bool)
    ensures
        hold == (health is Critical),
{
    match health {
        MemoryHealth::Critical => true,
        _ => false,
    }
}

/// One frame's worth of zeroed bytes for the guard's pool.
#[derive(Debug)]
pub struct FrameSlot {
    pub pixels: Vec<u8>,
}

impl Default for FrameSlot {
    fn default() -> (slot: FrameSlot)
        ensures
            slot.pixels@ == Seq::new(FRAME_SLOT_BYTES as nat, |i: int| 0u8),
    {
        FrameSlot { pixels: zeroed_buffer(FRAME_SLOT_BYTES) }
    }
}

/// The memory guard: a pool of frame buffers under a budget, a pool of
/// frame slots, and a leak detector.
pub struct MemorySafetyGuard {
    frame_buffer_manager: FrameBufferManager,
    leak_detector: LeakDetector,
    memory_pool: MemoryPool<FrameSlot>,
    memory_limit_mb: usize,
    warning_threshold: u32,
    critical_threshold: u32,
}

impl MemorySafetyGuard {
    /// The pool of frame buffers.
    pub closed spec fn buffers(&self) -> FrameBufferManager {
        self.frame_buffer_manager
    }

    /// The leak detector.
    pub closed spec fn detector(&self) -> LeakDetector {
        self.leak_detector
    }

    /// The pool of frame slots.
    pub closed spec fn slots(&self) -> MemoryPool<FrameSlot> {
        self.memory_pool
    }

    /// The limit in mebibytes.
    pub closed spec fn limit_mb(&self) -> usize {
        self.memory_limit_mb
    }

    /// The share of the limit, in percent, from which a warning is due.
    pub closed spec fn warning_threshold(&self) -> u32 {
        self.warning_threshold
    }

    /// The share of the limit, in percent, from which the state is critical.
    pub closed spec fn critical_threshold(&self) -> u32 {
        self.critical_threshold
    }

    /// The invariant: the leak detector's.
    pub open spec fn wf(&self) -> bool {
        self.detector().wf()
    }

    /// Whether limits and thresholds are those of `pre`.
    pub open spec fn same_limits(&self, pre: &MemorySafetyGuard) -> bool {
        &&& self.limit_mb() == pre.limit_mb()
        &&& self.warning_threshold() == pre.warning_threshold()
        &&& self.critical_threshold() == pre.critical_threshold()
    }

    /// A guard for 30 buffers of one 1080p RGBA frame under 512 MB, with 10
    /// frame slots, a warning from 70 percent and a critical state from 90
    /// percent of the limit.
    pub fn new() -> (guard: MemorySafetyGuard)
        ensures
            guard.wf(),
            guard.buffers().buffers() == Seq::<Vec<u8>>::empty(),
            guard.buffers().max_buffers() == 30,
            guard.buffers().buffer_size() == FRAME_SLOT_BYTES,
            guard.buffers().memory_usage() == 0,
            guard.buffers().max_memory() == 512 * BYTES_PER_MB,
            guard.detector().records() == Map::<usize, AllocationInfo>::empty(),
            guard.slots().max_size() == 10,
            guard.slots().allocations() == 0,
            guard.limit_mb() == 512,
            guard.warning_threshold() == 70,
            guard.critical_threshold() == 90,
    {
        MemorySafetyGuard {
            frame_buffer_manager: FrameBufferManager::new(30, FRAME_SLOT_BYTES, 512),
            leak_detector: LeakDetector::new(),
            memory_pool: MemoryPool::new(10),
            memory_limit_mb: 512,
            warning_threshold: 70,
            critical_threshold: 90,
        }
    }

    /// Hands out a frame buffer, as the pool's `get_buffer` does.
    pub fn allocate_frame(&mut self) -> (frame: Option<Vec<u8>>)
        ensures
            final(self).same_limits(old(self)),
            final(self).detector() == old(self).detector(),
            final(self).slots() == old(self).slots(),
            final(self).buffers().same_settings(&old(self).buffers()),
            frame is Some <==> old(self).buffers().has_room(),
            old(self).buffers().has_room() ==> final(self).buffers().memory_usage() == old(self).buffers().memory_usage() + old(self).buffers().buffer_size(),
            !old(self).buffers().has_room() ==> final(self).buffers().memory_usage() == old(self).buffers().memory_usage() && final(self).buffers().buffers() == old(self).buffers().collected(),
    {
        self.frame_buffer_manager.get_buffer()
    }

    /// Takes a frame buffer back, as the pool's `return_buffer` does.
    pub fn free_frame(&mut self, frame: Vec<u8>)
        ensures
            final(self).same_limits(old(self)),
            final(self).detector() == old(self).detector(),
            final(self).slots() == old(self).slots(),
            final(self).buffers().same_settings(&old(self).buffers()),
            final(self).buffers().memory_usage() == wrapping_difference(
                old(self).buffers().memory_usage(),
                old(self).buffers().buffer_size(),
            ),
            final(self).buffers().buffers() == if old(self).buffers().buffers().len() < old(self).buffers().max_buffers() {
                old(self).buffers().buffers().push(frame)
            } else {
                old(self).buffers().buffers()
            },
    {
        self.frame_buffer_manager.return_buffer(frame)
    }

    /// Takes a frame slot from the guard's pool.
    pub fn create_smart_frame(&mut self) -> (frame: Option<SmartFrame<FrameSlot>>)
        ensures
            final(self).same_limits(old(self)),
            final(self).detector() == old(self).detector(),
            final(self).buffers() == old(self).buffers(),
            frame is Some <==> old(self).slots().can_acquire(),
            final(self).slots().max_size() == old(self).slots().max_size(),
            final(self).slots().allocations() == if old(self).slots().can_acquire() {
                wrapping_sum(old(self).slots().allocations(), 1)
            } else {
                old(self).slots().allocations()
            },
    {
        SmartFrame::new(&mut self.memory_pool)
    }

    /// Gives a frame slot back to the guard's pool.
    pub fn release_smart_frame(&mut self, frame: SmartFrame<FrameSlot>)
        ensures
            final(self).same_limits(old(self)),
            final(self).detector() == old(self).detector(),
            final(self).buffers() == old(self).buffers(),
            final(self).slots().max_size() == old(self).slots().max_size(),
            frame.item() is Some ==> final(self).slots().allocations() == wrapping_difference(
                old(self).slots().allocations(),
                1,
            ),
            frame.item() is None ==> final(self).slots().allocations() == old(self).slots().allocations(),
    {
        frame.release(&mut self.memory_pool)
    }

    /// Tracks an allocation for an operation that begins at `now`.
    pub fn track_operation_at(&mut self, operation_id: &str, size: usize, now: u64) -> (operation:
        TrackedOperation)
        requires
            old(self).wf(),
        ensures
            final(self).wf(),
            final(self).same_limits(old(self)),
            final(self).buffers() == old(self).buffers(),
            final(self).slots() == old(self).slots(),
            operation.id == old(self).detector().next_id(),
            operation.name@ == operation_id@,
            operation.size == size,
            operation.start_time == now,
            allocation_added(
                old(self).detector().records(),
                final(self).detector().records(),
                operation.id,
                size,
                now,
            ),
    {
        let id = self.leak_detector.track_allocation_at(size, now);
        TrackedOperation::new_at(id, String::from_str(operation_id), size, now)
    }

    /// Tracks an allocation for an operation that begins at the time that
    /// the clock shows.
    pub fn track_operation(&mut self, operation_id: &str, size: usize) -> (operation:
        TrackedOperation)
        requires
            old(self).wf(),
        ensures
            final(self).wf(),
            final(self).same_limits(old(self)),
            final(self).buffers() == old(self).buffers(),
            final(self).slots() == old(self).slots(),
            operation.id == old(self).detector().next_id(),
            operation.name@ == operation_id@,
            operation.size == size,
            allocation_added(
                old(self).detector().records(),
                final(self).detector().records(),
                operation.id,
                size,
                operation.start_time,
            ),
    {
        let now = current_timestamp_ms();
        self.track_operation_at(operation_id, size, now)
    }

    /// The health of the bytes in use: critical from the critical
    /// threshold's share of the limit on, a warning from the warning
    /// threshold's share on. The guard is not changed.
    pub fn check_memory_health(&self) -> (health: MemoryHealth)
        ensures
            health == health_of(
                self.buffers().memory_usage() as int,
                self.limit_mb() as int,
                self.warning_threshold(),
                self.critical_threshold(),
            ),
    {
        classify_health(
            self.frame_buffer_manager.get_memory_usage(),
            self.memory_limit_mb,
            self.warning_threshold,
            self.critical_threshold,
        )
    }

    /// Collects garbage in the buffer pool and reports the allocations that
    /// have been held for long at `now`.
    pub fn force_cleanup_at(&mut self, now: u64) -> (leaks: Vec<(usize, AllocationInfo)>)
        ensures
            final(self).same_limits(old(self)),
            final(self).detector() == old(self).detector(),
            final(self).slots() == old(self).slots(),
            final(self).buffers().same_settings(&old(self).buffers()),
            final(self).buffers().memory_usage() == old(self).buffers().memory_usage(),
            final(self).buffers().buffers() == old(self).buffers().collected(),
            reports(leaks@, old(self).detector().records(), now),
    {
        self.frame_buffer_manager.collect_garbage();
        self.leak_detector.report_leaks_at(now)
    }

    /// The guard's figures at `now`.
    pub fn get_stats_at(&self, now: u64) -> (stats: MemoryStats)
        ensures
            stats == (MemoryStats {
                current_mb: (self.buffers().memory_usage() / BYTES_PER_MB) as usize,
                limit_mb: self.limit_mb(),
                buffer_count: self.buffers().buffers().len() as usize,
                leak_count: leak_ids(self.detector().records(), now).len() as usize,
            }),
    {
        let leaks = self.leak_detector.report_leaks_at(now);
        proof {
            lemma_report_length(leaks@, self.detector().records(), now);
        }
        MemoryStats {
            current_mb: self.frame_buffer_manager.get_memory_usage_mb(),
            limit_mb: self.memory_limit_mb,
            buffer_count: self.frame_buffer_manager.get_buffer_count(),
            leak_count: leaks.len(),
        }
    }
}

} // verus!
