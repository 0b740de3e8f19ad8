//! Chunk ingestion: sequence numbers, processing state and retries.
//!
//! The manager keeps its chunks in the order in which they arrived. No id
//! occurs twice, and sequence numbers rise strictly along the list.

use crate::utils::error::resource_unavailable;
use crate::utils::error::VideoEngineError;
use crate::utils::time::current_timestamp_ms;
use std::collections::HashMap;
use std::collections::VecDeque;
use uuid::Uuid;
use vstd::prelude::*;
use vstd::std_specs::hash::group_hash_axioms;
use vstd::string::*;

verus! {

/// A chunk that was marked as failed this many times is failed for good.
pub const MAX_RETRIES: u32 = 3;

/// The capacity of a manager made by `ChunkManager::new`.
pub const DEFAULT_MAX_CHUNKS: usize = 100;

/// One unit of encoded media.
#[derive(Debug, Clone)]
pub struct VideoChunk {
    pub id: String,
    pub data: Vec<u8>,
    pub timestamp: u64,
    pub sequence_number: u32,
    pub is_processed: bool,
    pub retry_count: u32,
}

/// Running figures of a manager. The average is in whole bytes.
#[derive(Debug, Clone, Copy, PartialEq, Eq)]
pub struct ChunkManagerStats {
    pub total_chunks: usize,
    pub processed_chunks: usize,
    pub failed_chunks: usize,
    pub current_pending: usize,
    pub average_chunk_size: u64,
}

/// `x + 1`, stopping at the largest `usize`.
pub open spec fn bump(x: usize) -> usize {
    if x < usize::MAX {
        (x + 1) as usize
    } else {
        x
    }
}

/// Whether some chunk has the id.
pub open spec fn has_id(chunks: Seq<VideoChunk>, id: Seq<char>) -> bool {
    exists|i: int| 0 <= i < chunks.len() && (#[trigger] chunks[i]).id@ == id
}

/// The position of a chunk with the id, where there is one.
pub open spec fn id_index(chunks: Seq<VideoChunk>, id: Seq<char>) -> int {
    choose|i: int| 0 <= i < chunks.len() && (#[trigger] chunks[i]).id@ == id
}

/// Whether some chunk has the sequence number.
pub open spec fn has_sequence(chunks: Seq<VideoChunk>, sequence: u32) -> bool {
    exists|i: int| 0 <= i < chunks.len() && (#[trigger] chunks[i]).sequence_number == sequence
}

/// The position of a chunk with the sequence number, where there is one.
pub open spec fn sequence_index(chunks: Seq<VideoChunk>, sequence: u32) -> int {
    choose|i: int| 0 <= i < chunks.len() && (#[trigger] chunks[i]).sequence_number == sequence
}

/// No id occurs twice.
pub open spec fn ids_unique(chunks: Seq<VideoChunk>) -> bool {
    forall|i: int, j: int|
        0 <= i < j < chunks.len() ==> (#[trigger] chunks[i]).id@ != (#[trigger] chunks[j]).id@
}

/// Sequence numbers rise strictly along the list and stay below `next`.
pub open spec fn sequences_rise(chunks: Seq<VideoChunk>, next: u32) -> bool {
    &&& forall|i: int, j: int|
        0 <= i < j < chunks.len() ==> (#[trigger] chunks[i]).sequence_number
            < (#[trigger] chunks[j]).sequence_number
    &&& forall|i: int| 0 <= i < chunks.len() ==> (#[trigger] chunks[i]).sequence_number < next
}

/// Whether the index names, under the sequence number of each chunk, that
/// chunk's id, and holds no other sequence number.
pub open spec fn indexes(index: Map<u32, String>, chunks: Seq<VideoChunk>) -> bool {
    &&& forall|s: u32| #[trigger] index.contains_key(s) ==> has_sequence(chunks, s)
    &&& forall|i: int|
        0 <= i < chunks.len() ==> index.contains_key((#[trigger] chunks[i]).sequence_number)
            && index[chunks[i].sequence_number]@ == chunks[i].id@
}

/// The number of chunks that are not processed.
pub open spec fn count_pending(chunks: Seq<VideoChunk>) -> nat
    decreases chunks.len(),
{
    if chunks.len() == 0 {
        0
    } else {
        count_pending(chunks.drop_last()) + if chunks.last().is_processed {
            0nat
        } else {
            1nat
        }
    }
}

/// The sum of the chunks' payload lengths.
pub open spec fn held_bytes(chunks: Seq<VideoChunk>) -> nat
    decreases chunks.len(),
{
    if chunks.len() == 0 {
        0
    } else {
        held_bytes(chunks.drop_last()) + chunks.last().data@.len()
    }
}

/// The position of the first chunk, from `from` on, that is not processed;
/// the length where there is none.
pub open spec fn first_unprocessed(chunks: Seq<VideoChunk>, from: int) -> int
    decreases chunks.len() - from,
{
    if 0 <= from < chunks.len() && chunks[from].is_processed {
        first_unprocessed(chunks, from + 1)
    } else {
        from
    }
}

/// The chunks that stay when the oldest processed ones, `budget` at most,
/// are reclaimed.
pub open spec fn reclaimed(chunks: Seq<VideoChunk>, budget: nat) -> Seq<VideoChunk>
    decreases chunks.len(),
{
    if chunks.len() == 0 || budget == 0 {
        chunks
    } else if chunks[0].is_processed {
        reclaimed(chunks.skip(1), (budget - 1) as nat)
    } else {
        seq![chunks[0]] + reclaimed(chunks.skip(1), budget)
    }
}

/// The sequence numbers below `n` that no chunk has, in rising order.
pub open spec fn missing_below(chunks: Seq<VideoChunk>, n: int) -> Seq<u32>
    decreases n,
{
    if n <= 0 {
        Seq::empty()
    } else if has_sequence(chunks, (n - 1) as u32) {
        missing_below(chunks, n - 1)
    } else {
        missing_below(chunks, n - 1).push((n - 1) as u32)
    }
}

/// The chunk after it was marked as processed.
pub open spec fn processed(c: VideoChunk) -> VideoChunk {
    VideoChunk { is_processed: true, ..c }
}

/// The chunk after it was marked as failed: one more retry is counted, and
/// the chunk is processed for good unless a retry was asked for and fewer
/// than `MAX_RETRIES` failures are counted.
pub open spec fn failed(c: VideoChunk, retry: bool) -> VideoChunk {
    let count = if c.retry_count < u32::MAX {
        (c.retry_count + 1) as u32
    } else {
        c.retry_count
    };
    VideoChunk {
        retry_count: count,
        is_processed: if retry && count < MAX_RETRIES {
            c.is_processed
        } else {
            true
        },
        ..c
    }
}

/// Whether a failure of the chunk is final.
pub open spec fn failure_is_final(c: VideoChunk, retry: bool) -> bool {
    !(retry && failed(c, retry).retry_count < MAX_RETRIES)
}

/// Calls `uuid::Uuid::new_v4` and renders the result with `to_string`. The
/// id is random: nothing is promised of it.
#[verifier::external_body]
fn random_chunk_id() -> (id: String) {
    Uuid::new_v4().to_string()
}

impl VideoChunk {
    /// A fresh, unprocessed chunk with the given id, arrived at `timestamp`.
    pub fn with_id(id: String, data: Vec<u8>, sequence_number: u32, timestamp: u64) -> (chunk:
        VideoChunk)
        ensures
            chunk == (VideoChunk {
                id,
                data,
                timestamp,
                sequence_number,
                is_processed: false,
                retry_count: 0,
            }),
    {
        VideoChunk { id, data, timestamp, sequence_number, is_processed: false, retry_count: 0 }
    }

    /// A fresh, unprocessed chunk with a random id, stamped with the time
    /// that the clock shows.
    pub fn new(data: Vec<u8>, sequence_number: u32) -> (chunk: VideoChunk)
        ensures
            chunk.data == data,
            chunk.sequence_number == sequence_number,
            !chunk.is_processed,
            chunk.retry_count == 0,
    {
        VideoChunk::with_id(random_chunk_id(), data, sequence_number, current_timestamp_ms())
    }
}

/// Tracks incoming chunks and their processing state.
pub struct ChunkManager {
    chunks: VecDeque<VideoChunk>,
    chunks_by_sequence: HashMap<u32, String>,
    next_sequence: u32,
    max_chunks: usize,
    total_chunks: usize,
    processed_chunks: usize,
    failed_chunks: usize,
    total_bytes: u64,
}

/// Takes the chunk at `at` out of the queue; those behind it move up.
fn take_at(chunks: &mut VecDeque<VideoChunk>, at: usize) -> (chunk: VideoChunk)
    requires
        at < old(chunks)@.len(),
    ensures
        chunk == old(chunks)@[at as int],
        final(chunks)@ == old(chunks)@.remove(at as int),
{
    chunks.remove(at).unwrap()
}

impl ChunkManager {
    /// The chunks held, in order of arrival.
    pub closed spec fn chunks(&self) -> Seq<VideoChunk> {
        self.chunks@
    }

    /// The ids of the chunks held, each under its chunk's sequence number.
    pub closed spec fn index(&self) -> Map<u32, String> {
        self.chunks_by_sequence@
    }

    /// The sequence number that the next chunk gets.
    pub closed spec fn next_sequence(&self) -> u32 {
        self.next_sequence
    }

    /// The number of chunks above which processed chunks are reclaimed.
    pub closed spec fn max_chunks(&self) -> usize {
        self.max_chunks
    }

    /// The number of chunks that were accepted.
    pub closed spec fn total_chunks(&self) -> usize {
        self.total_chunks
    }

    /// The number of times a chunk was marked as processed.
    pub closed spec fn processed_chunks(&self) -> usize {
        self.processed_chunks
    }

    /// The number of final failures.
    pub closed spec fn failed_chunks(&self) -> usize {
        self.failed_chunks
    }

    /// The sum of the accepted chunks' lengths, stopping at the largest
    /// `u64`.
    pub closed spec fn total_bytes(&self) -> u64 {
        self.total_bytes
    }

    /// The invariant: ids are unique, sequence numbers rise, and the index
    /// by sequence number names the chunks held.
    pub open spec fn wf(&self) -> bool {
        &&& ids_unique(self.chunks())
        &&& sequences_rise(self.chunks(), self.next_sequence())
        &&& indexes(self.index(), self.chunks())
    }

    /// Whether everything but the chunks is as in `pre`.
    pub open spec fn same_counters(&self, pre: &ChunkManager) -> bool {
        &&& self.next_sequence() == pre.next_sequence()
        &&& self.max_chunks() == pre.max_chunks()
        &&& self.total_chunks() == pre.total_chunks()
        &&& self.processed_chunks() == pre.processed_chunks()
        &&& self.failed_chunks() == pre.failed_chunks()
        &&& self.total_bytes() == pre.total_bytes()
    }

    /// A manager for `DEFAULT_MAX_CHUNKS` chunks.
    pub fn new() -> (manager: ChunkManager)
        ensures
            manager.wf(),
            manager.chunks() == Seq::<VideoChunk>::empty(),
            manager.next_sequence() == 0,
            manager.max_chunks() == DEFAULT_MAX_CHUNKS,
            manager.total_chunks() == 0,
            manager.processed_chunks() == 0,
            manager.failed_chunks() == 0,
            manager.total_bytes() == 0,
    {
        ChunkManager::with_capacity(DEFAULT_MAX_CHUNKS)
    }

    /// A manager for `max_chunks` chunks.
    pub fn with_capacity(max_chunks: usize) -> (manager: ChunkManager)
        ensures
            manager.wf(),
            manager.chunks() == Seq::<VideoChunk>::empty(),
            manager.next_sequence() == 0,
            manager.max_chunks() == max_chunks,
            manager.total_chunks() == 0,
            manager.processed_chunks() == 0,
            manager.failed_chunks() == 0,
            manager.total_bytes() == 0,
    {
        broadcast use group_hash_axioms;

        ChunkManager {
            chunks: VecDeque::new(),
            chunks_by_sequence: HashMap::new(),
            next_sequence: 0,
            max_chunks,
            total_chunks: 0,
            processed_chunks: 0,
            failed_chunks: 0,
            total_bytes: 0,
        }
    }

    /// Where the chunk with the id stands.
    fn position(&self, id: &String) -> (at: Option<usize>)
        requires
            self.wf(),
        ensures
            match at {
                Some(i) => {
                    &&& i < self.chunks().len()
                    &&& self.chunks()[i as int].id@ == id@
                    &&& has_id(self.chunks(), id@)
                    &&& id_index(self.chunks(), id@) == i
                },
                None => !has_id(self.chunks(), id@),
            },
    {
        let mut i: usize = 0;
        while i < self.chunks.len()
            invariant
                self.wf(),
                i <= self.chunks.len(),
                forall|j: int| 0 <= j < i ==> (#[trigger] self.chunks()[j]).id@ != id@,
            decreases self.chunks.len() - i,
        {
            if self.chunks[i].id == *id {
                proof {
                    lemma_id_index(self.chunks(), i as int);
                }
                return Some(i);
            }
            i = i + 1;
        }
        None
    }

    /// Where the chunk with the sequence number stands: the index gives its
    /// id.
    fn sequence_position(&self, sequence: u32) -> (at: Option<usize>)
        requires
            self.wf(),
        ensures
            match at {
                Some(i) => {
                    &&& i < self.chunks().len()
                    &&& self.chunks()[i as int].sequence_number == sequence
                    &&& has_sequence(self.chunks(), sequence)
                    &&& sequence_index(self.chunks(), sequence) == i
                },
                None => !has_sequence(self.chunks(), sequence),
            },
    {
        broadcast use group_hash_axioms;

        match self.chunks_by_sequence.get(&sequence) {
            Some(id) => {
                let at = self.position(id);
                proof {
                    let chunks = self.chunks();
                    assert(self.index().contains_key(sequence));
                    assert(self.index()[sequence] == *id);
                    let i = sequence_index(chunks, sequence);
                    assert(chunks[i].id@ == id@);
                    lemma_sequence_index(chunks, self.next_sequence(), i);
                    lemma_id_index(chunks, i);
                }
                at
            },
            None => {
                proof {
                    if has_sequence(self.chunks(), sequence) {
                        let i = sequence_index(self.chunks(), sequence);
                        assert(self.index().contains_key(self.chunks()[i].sequence_number));
                    }
                }
                None
            },
        }
    }

    /// Reclaims the oldest processed chunks, a quarter of the capacity at
    /// most.
    pub fn cleanup_old_chunks(&mut self)
        requires
            old(self).wf(),
        ensures
            final(self).wf(),
            final(self).same_counters(old(self)),
            final(self).chunks() == reclaimed(
                old(self).chunks(),
                (old(self).max_chunks() / 4) as nat,
            ),
    {
        broadcast use group_hash_axioms;

        let ghost before = self.chunks();
        let ghost mut seen: int = 0;
        let mut budget: usize = self.max_chunks / 4;
        let mut i: usize = 0;
        proof {
            lemma_reclaimed(before, budget as nat, self.next_sequence());
            assert(before.skip(0) =~= before);
            assert(before.subrange(0, 0) + reclaimed(before, budget as nat) =~= reclaimed(
                before,
                budget as nat,
            ));
        }
        while i < self.chunks.len() && budget > 0
            invariant
                before == old(self).chunks(),
                self.same_counters(old(self)),
                0 <= seen <= before.len(),
                i <= self.chunks.len(),
                i <= seen,
                self.chunks().len() - i == before.len() - seen,
                self.chunks().subrange(i as int, self.chunks().len() as int) == before.skip(seen),
                self.chunks().subrange(0, i as int) + reclaimed(before.skip(seen), budget as nat)
                    == reclaimed(before, (old(self).max_chunks() / 4) as nat),
                sequences_rise(self.chunks(), self.next_sequence()),
                indexes(self.index(), self.chunks()),
            decreases before.len() - seen,
        {
            let ghost held = self.chunks();
            let ghost tail = before.skip(seen);
            proof {
                assert(tail[0] == held[i as int]);
                assert(tail.skip(1) =~= before.skip(seen + 1));
            }
            if self.chunks[i].is_processed {
                let sequence = self.chunks[i].sequence_number;
                proof {
                    lemma_index_remove(self.index(), held, i as int, self.next_sequence());
                }
                let _ = take_at(&mut self.chunks, i);
                let _ = self.chunks_by_sequence.remove(&sequence);
                budget = budget - 1;
                proof {
                    assert(self.chunks().subrange(0, i as int) =~= held.subrange(0, i as int));
                    assert(self.chunks().subrange(i as int, self.chunks().len() as int)
                        =~= before.skip(seen + 1));
                }
            } else {
                i = i + 1;
                proof {
                    assert(self.chunks().subrange(0, i as int) + reclaimed(
                        before.skip(seen + 1),
                        budget as nat,
                    ) =~= held.subrange(0, i - 1) + (seq![tail[0]] + reclaimed(
                        tail.skip(1),
                        budget as nat,
                    )));
                    assert(self.chunks().subrange(i as int, self.chunks().len() as int)
                        =~= before.skip(seen + 1));
                }
            }
            proof {
                seen = seen + 1;
            }
        }
        proof {
            let tail = before.skip(seen);
            assert(reclaimed(tail, budget as nat) == tail);
            assert(self.chunks() =~= self.chunks().subrange(0, i as int) + self.chunks().subrange(
                i as int,
                self.chunks().len() as int,
            ));
        }
    }

    /// What accepting a chunk does to a manager. An id that is held only
    /// gets a new arrival time. A new id gets the next sequence number and
    /// goes to the end; where the manager is at capacity, processed chunks
    /// are reclaimed first.
    pub open spec fn chunk_added(
        &self,
        post: &ChunkManager,
        chunk_id: Seq<char>,
        data: Seq<u8>,
        now: u64,
    ) -> bool {
        &&& post.max_chunks() == self.max_chunks()
        &&& post.processed_chunks() == self.processed_chunks()
        &&& post.failed_chunks() == self.failed_chunks()
        &&& if has_id(self.chunks(), chunk_id) {
            let at = id_index(self.chunks(), chunk_id);
            &&& post.chunks() == self.chunks().update(
                at,
                VideoChunk { timestamp: now, ..self.chunks()[at] },
            )
            &&& post.next_sequence() == self.next_sequence()
            &&& post.total_chunks() == self.total_chunks()
            &&& post.total_bytes() == self.total_bytes()
        } else {
            let kept = if self.chunks().len() >= self.max_chunks() {
                reclaimed(self.chunks(), (self.max_chunks() / 4) as nat)
            } else {
                self.chunks()
            };
            &&& post.chunks().len() == kept.len() + 1
            &&& post.chunks().drop_last() == kept
            &&& post.chunks().last().id@ == chunk_id
            &&& post.chunks().last().data@ == data
            &&& post.chunks().last().timestamp == now
            &&& post.chunks().last().sequence_number == self.next_sequence()
            &&& !post.chunks().last().is_processed
            &&& post.chunks().last().retry_count == 0
            &&& post.next_sequence() == self.next_sequence() + 1
            &&& post.total_chunks() == bump(self.total_chunks())
            &&& post.total_bytes() == if self.total_bytes() + data.len() <= u64::MAX {
                (self.total_bytes() + data.len()) as u64
            } else {
                u64::MAX
            }
        }
    }

    /// Accepts a chunk that arrived at `now`. Fails, and changes nothing,
    /// only where the id is new and no sequence number is left.
    pub fn add_chunk_at(&mut self, chunk_id: &str, data: &[u8], now: u64) -> (done: Result<
        (),
        VideoEngineError,
    >)
        requires
            old(self).wf(),
        ensures
            final(self).wf(),
            done is Err <==> !has_id(old(self).chunks(), chunk_id@) && old(self).next_sequence()
                == u32::MAX,
            done matches Err(e) ==> e is ResourceUnavailable && final(self).chunks() == old(self).chunks() && final(self).same_counters(old(self)),
            done is Ok ==> old(self).chunk_added(final(self), chunk_id@, data@, now),
    {
        let id = String::from_str(chunk_id);
        match self.position(&id) {
            Some(at) => {
                let mut chunk = take_at(&mut self.chunks, at);
                chunk.timestamp = now;
                self.chunks.insert(at, chunk);
                proof {
                    let after = self.chunks();
                    let before = old(self).chunks();
                    assert(after =~= before.update(
                        at as int,
                        VideoChunk { timestamp: now, ..before[at as int] },
                    ));
                    assert forall|i: int, j: int| 0 <= i < j < after.len() implies (
                    #[trigger] after[i]).id@ != (#[trigger] after[j]).id@ && after[i].sequence_number
                        < after[j].sequence_number by {
                        assert(before[i].id@ != before[j].id@);
                        assert(before[i].sequence_number < before[j].sequence_number);
                    }
                    assert forall|i: int| 0 <= i < after.len() implies (
                    #[trigger] after[i]).sequence_number < self.next_sequence() by {
                        assert(before[i].sequence_number < self.next_sequence());
                    }
                    lemma_index_update(self.index(), before, at as int, after[at as int]);
                }
                return Ok(());
            },
            None => {},
        }
        if self.next_sequence == u32::MAX {
            return Err(resource_unavailable("no sequence number is left"));
        }
        if self.chunks.len() >= self.max_chunks {
            self.cleanup_old_chunks();
        }
        let ghost kept = self.chunks();
        proof {
            lemma_reclaimed(
                old(self).chunks(),
                (old(self).max_chunks() / 4) as nat,
                old(self).next_sequence(),
            );
            if has_id(kept, chunk_id@) {
                let i = choose|i: int| 0 <= i < kept.len() && (#[trigger] kept[i]).id@ == chunk_id@;
                if old(self).chunks().len() >= old(self).max_chunks() {
                    let j = choose|j: int|
                        i <= j < old(self).chunks().len() && old(self).chunks()[j] == kept[i];
                    assert(old(self).chunks()[j].id@ == chunk_id@);
                }
                assert(false);
            }
        }
        let name = id.clone();
        let chunk = VideoChunk::with_id(id, vstd::slice::slice_to_vec(data), self.next_sequence, now);
        proof {
            lemma_index_push(self.index(), kept, chunk, name);
        }
        self.chunks.push_back(chunk);
        let _ = self.chunks_by_sequence.insert(self.next_sequence, name);
        self.next_sequence = self.next_sequence + 1;
        if self.total_chunks < usize::MAX {
            self.total_chunks = self.total_chunks + 1;
        }
        let len = data.len() as u64;
        self.total_bytes = if self.total_bytes <= u64::MAX - len {
            self.total_bytes + len
        } else {
            u64::MAX
        };
        proof {
            let after = self.chunks();
            assert(after.drop_last() =~= kept);
            assert forall|i: int, j: int| 0 <= i < j < after.len() implies (#[trigger] after[i]).id@
                != (#[trigger] after[j]).id@ && after[i].sequence_number
                < after[j].sequence_number by {
                if j == kept.len() {
                    assert(after[i] == kept[i]);
                    assert(kept[i].sequence_number < old(self).next_sequence());
                    if kept[i].id@ == chunk_id@ {
                        assert(has_id(kept, chunk_id@));
                    }
                } else {
                    assert(kept[i].id@ != kept[j].id@);
                    assert(kept[i].sequence_number < kept[j].sequence_number);
                }
            }
            assert forall|i: int| 0 <= i < after.len() implies (#[trigger] after[i]).sequence_number
                < self.next_sequence() by {
                if i < kept.len() {
                    assert(kept[i].sequence_number < old(self).next_sequence());
                }
            }
        }
        Ok(())
    }

    /// Accepts a chunk, stamped with the time that the clock shows.
    pub fn add_chunk(&mut self, chunk_id: &str, data: &[u8]) -> (done: Result<(), VideoEngineError>)
        requires
            old(self).wf(),
        ensures
            final(self).wf(),
            done is Err <==> !has_id(old(self).chunks(), chunk_id@) && old(self).next_sequence()
                == u32::MAX,
            done matches Err(e) ==> e is ResourceUnavailable && final(self).chunks() == old(self).chunks() && final(self).same_counters(old(self)),
            done is Ok ==> exists|now: u64| #[trigger]
                old(self).chunk_added(final(self), chunk_id@, data@, now),
    {
        let now = current_timestamp_ms();
        let done = self.add_chunk_at(chunk_id, data, now);
        proof {
            if done is Ok {
                assert(old(self).chunk_added(final(self), chunk_id@, data@, now));
            }
        }
        done
    }

    /// The oldest chunk that is not processed: its id and a copy of its
    /// payload. Processed chunks in front of it leave the manager. The chunk
    /// itself stays.
    pub fn get_next_chunk(&mut self) -> (next: Option<(String, Vec<u8>)>)
        requires
            old(self).wf(),
        ensures
            final(self).wf(),
            final(self).same_counters(old(self)),
            ({
                let at = first_unprocessed(old(self).chunks(), 0);
                &&& final(self).chunks() == old(self).chunks().skip(at)
                &&& if at < old(self).chunks().len() {
                    &&& next matches Some(pair)
                    &&& pair.0@ == old(self).chunks()[at].id@
                    &&& pair.1@ == old(self).chunks()[at].data@
                } else {
                    next is None
                }
            }),
    {
        let ghost before = self.chunks();
        let ghost mut gone: int = 0;
        proof {
            assert(before.skip(0) =~= before);
        }
        while self.chunks.len() > 0
            invariant
                before == old(self).chunks(),
                0 <= gone <= before.len(),
                self.chunks() == before.skip(gone),
                first_unprocessed(before, gone) == first_unprocessed(before, 0),
                self.same_counters(old(self)),
                self.wf(),
            decreases self.chunks.len(),
        {
            if !self.chunks[0].is_processed {
                let id = self.chunks[0].id.clone();
                let data = self.chunks[0].data.clone();
                return Some((id, data));
            }
            let sequence = self.chunks[0].sequence_number;
            proof {
                lemma_index_remove(self.index(), self.chunks(), 0, self.next_sequence());
            }
            let ghost held = self.chunks();
            let _ = self.chunks.pop_front();
            let _ = self.chunks_by_sequence.remove(&sequence);
            proof {
                let after = self.chunks();
                assert(after =~= held.remove(0));
                assert(after =~= before.skip(gone + 1));
                assert forall|i: int, j: int| 0 <= i < j < after.len() implies (
                #[trigger] after[i]).id@ != (#[trigger] after[j]).id@ && after[i].sequence_number
                    < after[j].sequence_number by {
                    assert(before.skip(gone)[i + 1].id@ != before.skip(gone)[j + 1].id@);
                    assert(before.skip(gone)[i + 1].sequence_number < before.skip(
                        gone,
                    )[j + 1].sequence_number);
                }
                assert forall|i: int| 0 <= i < after.len() implies (
                #[trigger] after[i]).sequence_number < self.next_sequence() by {
                    assert(before.skip(gone)[i + 1].sequence_number < self.next_sequence());
                }
                gone = gone + 1;
            }
        }
        proof {
            assert(before.skip(gone) =~= Seq::<VideoChunk>::empty());
        }
        None
    }

    /// What marking a chunk as processed does to a manager.
    pub open spec fn processed_marked(&self, post: &ChunkManager, chunk_id: Seq<char>) -> bool {
        &&& post.next_sequence() == self.next_sequence()
        &&& post.max_chunks() == self.max_chunks()
        &&& post.total_chunks() == self.total_chunks()
        &&& post.failed_chunks() == self.failed_chunks()
        &&& post.total_bytes() == self.total_bytes()
        &&& if has_id(self.chunks(), chunk_id) {
            let at = id_index(self.chunks(), chunk_id);
            &&& post.chunks() == self.chunks().update(at, processed(self.chunks()[at]))
            &&& post.processed_chunks() == bump(self.processed_chunks())
        } else {
            &&& post.chunks() == self.chunks()
            &&& post.processed_chunks() == self.processed_chunks()
        }
    }

    /// Keeps a manager intact when the chunk at `at` changes its state only.
    proof fn lemma_state_change(
        before: Seq<VideoChunk>,
        after: Seq<VideoChunk>,
        at: int,
        c: VideoChunk,
        next: u32,
    )
        requires
            ids_unique(before),
            sequences_rise(before, next),
            0 <= at < before.len(),
            c.id == before[at].id,
            c.sequence_number == before[at].sequence_number,
            after == before.update(at, c),
        ensures
            ids_unique(after),
            sequences_rise(after, next),
    {
        assert forall|i: int, j: int| 0 <= i < j < after.len() implies (#[trigger] after[i]).id@ != (
        #[trigger] after[j]).id@ && after[i].sequence_number < after[j].sequence_number by {
            assert(before[i].id@ != before[j].id@);
            assert(before[i].sequence_number < before[j].sequence_number);
        }
        assert forall|i: int| 0 <= i < after.len() implies (#[trigger] after[i]).sequence_number
            < next by {
            assert(before[i].sequence_number < next);
        }
    }

    /// Marks the chunk with the id as processed, if there is one.
    pub fn mark_processed(&mut self, chunk_id: &str)
        requires
            old(self).wf(),
        ensures
            final(self).wf(),
            old(self).processed_marked(final(self), chunk_id@),
    {
        let id = String::from_str(chunk_id);
        match self.position(&id) {
            Some(at) => {
                let mut chunk = take_at(&mut self.chunks, at);
                chunk.is_processed = true;
                self.chunks.insert(at, chunk);
                if self.processed_chunks < usize::MAX {
                    self.processed_chunks = self.processed_chunks + 1;
                }
                proof {
                    let before = old(self).chunks();
                    assert(self.chunks() =~= before.update(at as int, processed(before[at as int])));
                    Self::lemma_state_change(
                        before,
                        self.chunks(),
                        at as int,
                        processed(before[at as int]),
                        self.next_sequence(),
                    );
                    lemma_index_update(self.index(), before, at as int, processed(before[at as int]));
                }
            },
            None => {},
        }
    }

    /// What marking a chunk as failed does to a manager.
    pub open spec fn failed_marked(&self, post: &ChunkManager, chunk_id: Seq<char>, retry: bool) -> bool {
        &&& post.next_sequence() == self.next_sequence()
        &&& post.max_chunks() == self.max_chunks()
        &&& post.total_chunks() == self.total_chunks()
        &&& post.processed_chunks() == self.processed_chunks()
        &&& post.total_bytes() == self.total_bytes()
        &&& if has_id(self.chunks(), chunk_id) {
            let at = id_index(self.chunks(), chunk_id);
            &&& post.chunks() == self.chunks().update(at, failed(self.chunks()[at], retry))
            &&& post.failed_chunks() == if failure_is_final(self.chunks()[at], retry) {
                bump(self.failed_chunks())
            } else {
                self.failed_chunks()
            }
        } else {
            &&& post.chunks() == self.chunks()
            &&& post.failed_chunks() == self.failed_chunks()
        }
    }

    /// Marks the chunk with the id as failed, if there is one. With `retry`
    /// the chunk stays pending while fewer than `MAX_RETRIES` failures are
    /// counted; otherwise it is processed, and failed, for good.
    pub fn mark_failed(&mut self, chunk_id: &str, retry: bool) -> (done: Result<
        (),
        VideoEngineError,
    >)
        requires
            old(self).wf(),
        ensures
            done is Ok,
            final(self).wf(),
            old(self).failed_marked(final(self), chunk_id@, retry),
    {
        let id = String::from_str(chunk_id);
        match self.position(&id) {
            Some(at) => {
                let mut chunk = take_at(&mut self.chunks, at);
                let count = if chunk.retry_count < u32::MAX {
                    chunk.retry_count + 1
                } else {
                    chunk.retry_count
                };
                chunk.retry_count = count;
                let gives_up = !(retry && count < MAX_RETRIES);
                if gives_up {
                    chunk.is_processed = true;
                }
                self.chunks.insert(at, chunk);
                if gives_up && self.failed_chunks < usize::MAX {
                    self.failed_chunks = self.failed_chunks + 1;
                }
                proof {
                    let before = old(self).chunks();
                    assert(self.chunks() =~= before.update(
                        at as int,
                        failed(before[at as int], retry),
                    ));
                    Self::lemma_state_change(
                        before,
                        self.chunks(),
                        at as int,
                        failed(before[at as int], retry),
                        self.next_sequence(),
                    );
                    lemma_index_update(self.index(), before, at as int, failed(before[at as int], retry));
                }
            },
            None => {},
        }
        Ok(())
    }

    /// The chunk with the id.
    pub fn get_chunk(&self, chunk_id: &str) -> (chunk: Option<&VideoChunk>)
        requires
            self.wf(),
        ensures
            has_id(self.chunks(), chunk_id@) ==> chunk == Some(
                &self.chunks()[id_index(self.chunks(), chunk_id@)],
            ),
            !has_id(self.chunks(), chunk_id@) ==> chunk is None,
    {
        let id = String::from_str(chunk_id);
        match self.position(&id) {
            Some(at) => Some(&self.chunks[at]),
            None => None,
        }
    }

    /// The chunk with the sequence number.
    pub fn get_chunk_by_sequence(&self, sequence: u32) -> (chunk: Option<&VideoChunk>)
        requires
            self.wf(),
        ensures
            has_sequence(self.chunks(), sequence) ==> chunk == Some(
                &self.chunks()[sequence_index(self.chunks(), sequence)],
            ),
            !has_sequence(self.chunks(), sequence) ==> chunk is None,
    {
        match self.sequence_position(sequence) {
            Some(at) => Some(&self.chunks[at]),
            None => None,
        }
    }

    /// The number of times a chunk was marked as processed.
    pub fn get_processed_count(&self) -> (n: usize)
        ensures
            n == self.processed_chunks(),
    {
        self.processed_chunks
    }

    /// The number of chunks that are not processed.
    pub fn get_pending_count(&self) -> (n: usize)
        ensures
            n == count_pending(self.chunks()),
    {
        let mut n: usize = 0;
        let mut i: usize = 0;
        proof {
            assert(self.chunks().subrange(0, 0) =~= Seq::<VideoChunk>::empty());
        }
        while i < self.chunks.len()
            invariant
                i <= self.chunks.len(),
                n <= i,
                n == count_pending(self.chunks().subrange(0, i as int)),
            decreases self.chunks.len() - i,
        {
            proof {
                assert(self.chunks().subrange(0, i + 1).drop_last() =~= self.chunks().subrange(
                    0,
                    i as int,
                ));
            }
            if !self.chunks[i].is_processed {
                n = n + 1;
            }
            i = i + 1;
        }
        proof {
            assert(self.chunks().subrange(0, i as int) =~= self.chunks());
        }
        n
    }

    /// The manager's figures. The average chunk size is the sum of the
    /// accepted chunks' lengths over their number, in whole bytes.
    pub fn get_stats(&self) -> (stats: ChunkManagerStats)
        ensures
            stats == (ChunkManagerStats {
                total_chunks: self.total_chunks(),
                processed_chunks: self.processed_chunks(),
                failed_chunks: self.failed_chunks(),
                current_pending: count_pending(self.chunks()) as usize,
                average_chunk_size: if self.total_chunks() == 0 {
                    0
                } else {
                    (self.total_bytes() / (self.total_chunks() as u64)) as u64
                },
            }),
    {
        ChunkManagerStats {
            total_chunks: self.total_chunks,
            processed_chunks: self.processed_chunks,
            failed_chunks: self.failed_chunks,
            current_pending: self.get_pending_count(),
            average_chunk_size: if self.total_chunks == 0 {
                0
            } else {
                self.total_bytes / (self.total_chunks as u64)
            },
        }
    }

    /// Forgets every chunk and sets the counters back to zero. Sequence
    /// numbers go on from where they were.
    pub fn clear(&mut self)
        ensures
            final(self).wf(),
            final(self).chunks() == Seq::<VideoChunk>::empty(),
            final(self).next_sequence() == old(self).next_sequence(),
            final(self).max_chunks() == old(self).max_chunks(),
            final(self).total_chunks() == 0,
            final(self).processed_chunks() == 0,
            final(self).failed_chunks() == 0,
            final(self).total_bytes() == 0,
    {
        self.chunks.clear();
        self.chunks_by_sequence.clear();
        self.total_chunks = 0;
        self.processed_chunks = 0;
        self.failed_chunks = 0;
        self.total_bytes = 0;
    }

    /// The sum of the held chunks' payload lengths, stopping at the largest
    /// `usize`.
    pub fn get_memory_usage(&self) -> (bytes: usize)
        ensures
            bytes == if held_bytes(self.chunks()) <= usize::MAX {
                held_bytes(self.chunks())
            } else {
                usize::MAX as nat
            },
    {
        let mut bytes: usize = 0;
        let mut i: usize = 0;
        proof {
            assert(self.chunks().subrange(0, 0) =~= Seq::<VideoChunk>::empty());
        }
        while i < self.chunks.len()
            invariant
                i <= self.chunks.len(),
                bytes == if held_bytes(self.chunks().subrange(0, i as int)) <= usize::MAX {
                    held_bytes(self.chunks().subrange(0, i as int))
                } else {
                    usize::MAX as nat
                },
            decreases self.chunks.len() - i,
        {
            proof {
                assert(self.chunks().subrange(0, i + 1).drop_last() =~= self.chunks().subrange(
                    0,
                    i as int,
                ));
            }
            let len = self.chunks[i].data.len();
            bytes = if bytes <= usize::MAX - len {
                bytes + len
            } else {
                usize::MAX
            };
            i = i + 1;
        }
        proof {
            assert(self.chunks().subrange(0, i as int) =~= self.chunks());
        }
        bytes
    }

    /// Whether every sequence number below `sequence` belongs to a chunk
    /// that is held and processed.
    pub fn is_sequence_complete(&self, sequence: u32) -> (complete: bool)
        requires
            self.wf(),
        ensures
            complete == (forall|s: u32|
                s < sequence ==> #[trigger] has_sequence(self.chunks(), s) && self.chunks()[sequence_index(
                    self.chunks(),
                    s,
                )].is_processed),
    {
        let mut s: u32 = 0;
        while s < sequence
            invariant
                self.wf(),
                s <= sequence,
                forall|t: u32|
                    t < s ==> #[trigger] has_sequence(self.chunks(), t) && self.chunks()[sequence_index(
                        self.chunks(),
                        t,
                    )].is_processed,
            decreases sequence - s,
        {
            match self.sequence_position(s) {
                Some(at) => {
                    if !self.chunks[at].is_processed {
                        return false;
                    }
                },
                None => {
                    return false;
                },
            }
            s = s + 1;
        }
        true
    }

    /// The sequence numbers below `up_to_sequence` that no held chunk has,
    /// in rising order.
    pub fn get_missing_chunks(&self, up_to_sequence: u32) -> (missing: Vec<u32>)
        requires
            self.wf(),
        ensures
            missing@ == missing_below(self.chunks(), up_to_sequence as int),
    {
        let mut missing: Vec<u32> = Vec::new();
        let mut s: u32 = 0;
        while s < up_to_sequence
            invariant
                self.wf(),
                s <= up_to_sequence,
                missing@ == missing_below(self.chunks(), s as int),
            decreases up_to_sequence - s,
        {
            let held = self.chunks_by_sequence.contains_key(&s);
            proof {
                if has_sequence(self.chunks(), s) {
                    let i = sequence_index(self.chunks(), s);
                    assert(self.index().contains_key(self.chunks()[i].sequence_number));
                }
            }
            if !held {
                missing.push(s);
            }
            s = s + 1;
        }
        missing
    }
}

/// Taking a chunk out of the queue and its sequence number out of the
/// index keeps the index in step, and the sequence numbers rising.
pub proof fn lemma_index_remove(index: Map<u32, String>, chunks: Seq<VideoChunk>, at: int, next: u32)
    requires
        sequences_rise(chunks, next),
        indexes(index, chunks),
        0 <= at < chunks.len(),
    ensures
        sequences_rise(chunks.remove(at), next),
        indexes(index.remove(chunks[at].sequence_number), chunks.remove(at)),
{
    let rest = chunks.remove(at);
    let less = index.remove(chunks[at].sequence_number);
    assert forall|i: int| 0 <= i < rest.len() implies #[trigger] rest[i] == chunks[if i < at {
        i
    } else {
        i + 1
    }] by {}
    assert forall|i: int, j: int| 0 <= i < j < rest.len() implies (#[trigger] rest[i]).sequence_number
        < (#[trigger] rest[j]).sequence_number by {
        let a = if i < at { i } else { i + 1 };
        let b = if j < at { j } else { j + 1 };
        assert(chunks[a].sequence_number < chunks[b].sequence_number);
    }
    assert forall|i: int| 0 <= i < rest.len() implies less.contains_key(
        (#[trigger] rest[i]).sequence_number,
    ) && less[rest[i].sequence_number]@ == rest[i].id@ by {
        let a = if i < at { i } else { i + 1 };
        if a < at {
            assert(chunks[a].sequence_number < chunks[at].sequence_number);
        } else {
            assert(chunks[at].sequence_number < chunks[a].sequence_number);
        }
        assert(index.contains_key(chunks[a].sequence_number));
    }
    assert forall|s: u32| #[trigger] less.contains_key(s) implies has_sequence(rest, s) by {
        assert(index.contains_key(s));
        let k = sequence_index(chunks, s);
        assert(k != at);
        let i = if k < at { k } else { k - 1 };
        assert(rest[i].sequence_number == s);
    }
}

/// A change of a chunk that keeps its id and its sequence number keeps the
/// index in step.
pub proof fn lemma_index_update(index: Map<u32, String>, chunks: Seq<VideoChunk>, at: int, c: VideoChunk)
    requires
        indexes(index, chunks),
        0 <= at < chunks.len(),
        c.id@ == chunks[at].id@,
        c.sequence_number == chunks[at].sequence_number,
    ensures
        indexes(index, chunks.update(at, c)),
{
    let after = chunks.update(at, c);
    assert forall|i: int| 0 <= i < after.len() implies index.contains_key(
        (#[trigger] after[i]).sequence_number,
    ) && index[after[i].sequence_number]@ == after[i].id@ by {
        assert(index.contains_key(chunks[i].sequence_number));
    }
    assert forall|s: u32| #[trigger] index.contains_key(s) implies has_sequence(after, s) by {
        let k = sequence_index(chunks, s);
        assert(after[k].sequence_number == s);
    }
}

/// A chunk that enters at the tail, with its id entered under its sequence
/// number, keeps the index in step.
pub proof fn lemma_index_push(index: Map<u32, String>, chunks: Seq<VideoChunk>, c: VideoChunk, id: String)
    requires
        indexes(index, chunks),
        id@ == c.id@,
        forall|i: int| 0 <= i < chunks.len() ==> (#[trigger] chunks[i]).sequence_number < c.sequence_number,
    ensures
        indexes(index.insert(c.sequence_number, id), chunks.push(c)),
{
    let after = chunks.push(c);
    let more = index.insert(c.sequence_number, id);
    assert forall|i: int| 0 <= i < after.len() implies more.contains_key(
        (#[trigger] after[i]).sequence_number,
    ) && more[after[i].sequence_number]@ == after[i].id@ by {
        if i < chunks.len() {
            assert(index.contains_key(chunks[i].sequence_number));
            assert(chunks[i].sequence_number < c.sequence_number);
        }
    }
    assert forall|s: u32| #[trigger] more.contains_key(s) implies has_sequence(after, s) by {
        if s == c.sequence_number {
            assert(after[chunks.len() as int].sequence_number == s);
        } else {
            let k = sequence_index(chunks, s);
            assert(after[k].sequence_number == s);
        }
    }
}

/// The position of the first unprocessed chunk lies between `from` and the
/// end; every chunk before it is processed, and the one at it is not.
pub proof fn lemma_first_unprocessed(chunks: Seq<VideoChunk>, from: int)
    requires
        0 <= from <= chunks.len(),
    ensures
        from <= first_unprocessed(chunks, from) <= chunks.len(),
        forall|i: int|
            from <= i < first_unprocessed(chunks, from) ==> (#[trigger] chunks[i]).is_processed,
        first_unprocessed(chunks, from) < chunks.len() ==> !chunks[first_unprocessed(
            chunks,
            from,
        )].is_processed,
    decreases chunks.len() - from,
{
    if from < chunks.len() && chunks[from].is_processed {
        lemma_first_unprocessed(chunks, from + 1);
    }
}

/// With unique ids, the position of an id is the one place where it stands.
pub proof fn lemma_id_index(chunks: Seq<VideoChunk>, at: int)
    requires
        ids_unique(chunks),
        0 <= at < chunks.len(),
    ensures
        has_id(chunks, chunks[at].id@),
        id_index(chunks, chunks[at].id@) == at,
{
    let id = chunks[at].id@;
    assert(chunks[at].id@ == id);
    let j = id_index(chunks, id);
    assert(0 <= j < chunks.len() && chunks[j].id@ == id);
    if j < at {
        assert(chunks[j].id@ != chunks[at].id@);
    } else if at < j {
        assert(chunks[at].id@ != chunks[j].id@);
    }
}

/// With rising sequence numbers, the position of a sequence number is the
/// one place where it stands.
pub proof fn lemma_sequence_index(chunks: Seq<VideoChunk>, next: u32, at: int)
    requires
        sequences_rise(chunks, next),
        0 <= at < chunks.len(),
    ensures
        has_sequence(chunks, chunks[at].sequence_number),
        sequence_index(chunks, chunks[at].sequence_number) == at,
{
    let s = chunks[at].sequence_number;
    assert(chunks[at].sequence_number == s);
    let j = sequence_index(chunks, s);
    assert(0 <= j < chunks.len() && chunks[j].sequence_number == s);
    if j < at {
        assert(chunks[j].sequence_number < chunks[at].sequence_number);
    } else if at < j {
        assert(chunks[at].sequence_number < chunks[j].sequence_number);
    }
}

/// Changing a chunk's state changes the number of pending chunks by what
/// the chunk contributes.
pub proof fn lemma_count_update(chunks: Seq<VideoChunk>, at: int, c: VideoChunk)
    requires
        0 <= at < chunks.len(),
    ensures
        count_pending(chunks.update(at, c)) + (if chunks[at].is_processed {
            0int
        } else {
            1int
        }) == count_pending(chunks) + (if c.is_processed {
            0int
        } else {
            1int
        }),
        c.data@ == chunks[at].data@ ==> held_bytes(chunks.update(at, c)) == held_bytes(chunks),
    decreases chunks.len(),
{
    if at == chunks.len() - 1 {
        assert(chunks.update(at, c).drop_last() =~= chunks.drop_last());
    } else {
        lemma_count_update(chunks.drop_last(), at, c);
        assert(chunks.update(at, c).drop_last() =~= chunks.drop_last().update(at, c));
    }
}

/// What is reclaimed is a part of what was there: ids stay unique,
/// sequence numbers keep rising, and no unprocessed chunk is lost.
pub proof fn lemma_reclaimed(chunks: Seq<VideoChunk>, budget: nat, next: u32)
    requires
        ids_unique(chunks),
        sequences_rise(chunks, next),
    ensures
        ids_unique(reclaimed(chunks, budget)),
        sequences_rise(reclaimed(chunks, budget), next),
        reclaimed(chunks, budget).len() <= chunks.len(),
        chunks.len() <= reclaimed(chunks, budget).len() + budget,
        count_pending(reclaimed(chunks, budget)) == count_pending(chunks),
        forall|i: int|
            0 <= i < reclaimed(chunks, budget).len() ==> exists|j: int|
                i <= j < chunks.len() && chunks[j] == #[trigger] reclaimed(chunks, budget)[i],
    decreases chunks.len(),
{
    let out = reclaimed(chunks, budget);
    if chunks.len() == 0 || budget == 0 {
        assert forall|i: int| 0 <= i < out.len() implies exists|j: int|
            i <= j < chunks.len() && chunks[j] == #[trigger] out[i] by {
            assert(chunks[i] == out[i]);
        }
    } else {
        let tail = chunks.skip(1);
        assert forall|i: int, j: int| 0 <= i < j < tail.len() implies (#[trigger] tail[i]).id@
            != (#[trigger] tail[j]).id@ by {
            assert(chunks[i + 1].id@ != chunks[j + 1].id@);
        }
        assert forall|i: int, j: int| 0 <= i < j < tail.len() implies (
        #[trigger] tail[i]).sequence_number < (#[trigger] tail[j]).sequence_number by {
            assert(chunks[i + 1].sequence_number < chunks[j + 1].sequence_number);
        }
        assert forall|i: int| 0 <= i < tail.len() implies (#[trigger] tail[i]).sequence_number
            < next by {
            assert(chunks[i + 1].sequence_number < next);
        }
        lemma_count_skip(chunks);
        if chunks[0].is_processed {
            lemma_reclaimed(tail, (budget - 1) as nat, next);
            assert forall|i: int| 0 <= i < out.len() implies exists|j: int|
                i <= j < chunks.len() && chunks[j] == #[trigger] out[i] by {
                let j = choose|j: int| i <= j < tail.len() && tail[j] == out[i];
                assert(chunks[j + 1] == out[i]);
            }
        } else {
            lemma_reclaimed(tail, budget, next);
            let rest = reclaimed(tail, budget);
            assert(out == seq![chunks[0]] + rest);
            assert forall|i: int| 0 <= i < out.len() implies exists|j: int|
                i <= j < chunks.len() && chunks[j] == #[trigger] out[i] by {
                if i == 0 {
                    assert(chunks[0] == out[0]);
                } else {
                    assert(out[i] == rest[i - 1]);
                    let j = choose|j: int| i - 1 <= j < tail.len() && tail[j] == rest[i - 1];
                    assert(chunks[j + 1] == out[i]);
                }
            }
            assert forall|i: int, j: int| 0 <= i < j < out.len() implies (#[trigger] out[i]).id@
                != (#[trigger] out[j]).id@ && out[i].sequence_number < out[j].sequence_number by {
                let b = choose|b: int| j - 1 <= b < tail.len() && tail[b] == rest[j - 1];
                assert(out[j] == chunks[b + 1]);
                if i == 0 {
                    assert(out[0] == chunks[0]);
                    assert(chunks[0].id@ != chunks[b + 1].id@);
                } else {
                    assert(rest[i - 1].id@ != rest[j - 1].id@);
                    assert(out[i] == rest[i - 1]);
                    assert(out[j] == rest[j - 1]);
                }
            }
            assert forall|i: int| 0 <= i < out.len() implies (#[trigger] out[i]).sequence_number
                < next by {
                if i > 0 {
                    assert(out[i] == rest[i - 1]);
                }
            }
            lemma_count_prepend(chunks[0], rest);
        }
    }
}

/// The first chunk contributes to the number of pending chunks what it
/// would at the end.
pub proof fn lemma_count_skip(chunks: Seq<VideoChunk>)
    requires
        chunks.len() > 0,
    ensures
        count_pending(chunks) == count_pending(chunks.skip(1)) + if chunks[0].is_processed {
            0nat
        } else {
            1nat
        },
    decreases chunks.len(),
{
    if chunks.len() == 1 {
        assert(chunks.skip(1) =~= Seq::<VideoChunk>::empty());
        assert(chunks.drop_last() =~= Seq::<VideoChunk>::empty());
    } else {
        lemma_count_skip(chunks.drop_last());
        assert(chunks.drop_last().skip(1) =~= chunks.skip(1).drop_last());
        assert(chunks.skip(1).last() == chunks.last());
        assert(chunks.drop_last()[0] == chunks[0]);
    }
}

/// A chunk put in front contributes to the number of pending chunks what
/// it would at the end.
pub proof fn lemma_count_prepend(c: VideoChunk, rest: Seq<VideoChunk>)
    ensures
        count_pending(seq![c] + rest) == count_pending(rest) + if c.is_processed {
            0nat
        } else {
            1nat
        },
{
    let whole = seq![c] + rest;
    lemma_count_skip(whole);
    assert(whole.skip(1) =~= rest);
}

/// A fresh chunk that is marked as failed `MAX_RETRIES` times with a retry
/// asked for each time is processed after the last of them and not before,
/// one failure is counted, and one chunk fewer is pending.
pub proof fn lemma_retry_ceiling(
    m0: ChunkManager,
    m1: ChunkManager,
    m2: ChunkManager,
    m3: ChunkManager,
    chunk_id: Seq<char>,
)
    requires
        m0.wf(),
        has_id(m0.chunks(), chunk_id),
        !m0.chunks()[id_index(m0.chunks(), chunk_id)].is_processed,
        m0.chunks()[id_index(m0.chunks(), chunk_id)].retry_count == 0,
        m0.failed_marked(&m1, chunk_id, true),
        m1.failed_marked(&m2, chunk_id, true),
        m2.failed_marked(&m3, chunk_id, true),
    ensures
        has_id(m3.chunks(), chunk_id),
        !m1.chunks()[id_index(m1.chunks(), chunk_id)].is_processed,
        !m2.chunks()[id_index(m2.chunks(), chunk_id)].is_processed,
        m3.chunks()[id_index(m3.chunks(), chunk_id)].is_processed,
        m3.chunks()[id_index(m3.chunks(), chunk_id)].retry_count == MAX_RETRIES,
        m3.failed_chunks() == bump(m0.failed_chunks()),
        count_pending(m3.chunks()) == count_pending(m0.chunks()) - 1,
        count_pending(m2.chunks()) == count_pending(m0.chunks()),
{
    let at = id_index(m0.chunks(), chunk_id);
    let c0 = m0.chunks()[at];
    let c1 = failed(c0, true);
    let c2 = failed(c1, true);
    let c3 = failed(c2, true);
    ChunkManager::lemma_state_change(m0.chunks(), m1.chunks(), at, c1, m0.next_sequence());
    assert(m1.chunks()[at] == c1);
    lemma_id_index(m1.chunks(), at);
    ChunkManager::lemma_state_change(m1.chunks(), m2.chunks(), at, c2, m0.next_sequence());
    assert(m2.chunks()[at] == c2);
    lemma_id_index(m2.chunks(), at);
    ChunkManager::lemma_state_change(m2.chunks(), m3.chunks(), at, c3, m0.next_sequence());
    assert(m3.chunks()[at] == c3);
    lemma_id_index(m3.chunks(), at);
    lemma_count_update(m0.chunks(), at, c1);
    lemma_count_update(m1.chunks(), at, c2);
    lemma_count_update(m2.chunks(), at, c3);
}

} // verus!
