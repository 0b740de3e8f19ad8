//! The engine: chunk ingestion, the cache of chunks and decoded frames, and
//! the playback buffer, wired together. Decoding is the host's work: the
//! engine says what is to be decoded next and takes the result.

use crate::cache_manager::CacheManager;
use crate::cache_manager::CacheStats;
use crate::chunk_manager::first_unprocessed;
use crate::chunk_manager::lemma_id_index;
use crate::chunk_manager::processed;
use crate::chunk_manager::ChunkManager;
use crate::chunk_manager::VideoChunk;
use crate::decoder::DecodedFrame;
use crate::decoder::OutputFormat;
use crate::frame_buffer::FrameBuffer;
use crate::frame_buffer::PredecodePriority;
use crate::frame_buffer::PredecodeTask;
use crate::frame_buffer::WorkerStep;
use crate::memory_safe::MemoryHealth;
use crate::persistent_cache::bytes_of;
use crate::persistent_cache::has_key;
use crate::utils::error::resource_unavailable;
use crate::utils::error::VideoEngineError;
use crate::utils::time::current_timestamp_ms;
use vstd::prelude::*;
use vstd::string::*;

verus! {

/// How long the processing loop waits when no chunk is pending, in
/// milliseconds.
pub const IDLE_WAIT_MS: u64 = 10;

/// The width that a frame from the cache of decoded frames is taken to have.
pub const CACHED_FRAME_WIDTH: u32 = 1080;

/// The height that a frame from the cache of decoded frames is taken to
/// have.
pub const CACHED_FRAME_HEIGHT: u32 = 1920;

/// What the processing loop does next.
#[derive(Debug)]
pub enum ProcessingStep {
    /// The engine was stopped: leave the loop.
    Stop,
    /// No chunk is pending: wait for `IDLE_WAIT_MS`.
    Idle,
    /// The chunk was served from the cache of decoded frames and is done.
    Served { chunk_id: String },
    /// The chunk is to be decoded; the result goes to `complete_decode_at`.
    Decode { chunk_id: String, data: Vec<u8> },
}

/// Figures of the engine. The utilization is in thousandths.
#[derive(Debug, Clone, Copy, PartialEq, Eq)]
pub struct EngineStats {
    pub chunks_processed: usize,
    pub frames_decoded: usize,
    pub buffer_utilization: u64,
    pub is_running: bool,
}

/// The key under which the first decoded frame of a chunk is cached.
pub open spec fn decoded_key(chunk_id: Seq<char>) -> Seq<char> {
    "decoded_"@ + chunk_id
}

/// The frame that a cached payload of decoded bytes stands for.
pub open spec fn is_cached_frame(frame: DecodedFrame, bytes: Seq<u8>) -> bool {
    &&& frame.data@ == bytes
    &&& frame.width == CACHED_FRAME_WIDTH
    &&& frame.height == CACHED_FRAME_HEIGHT
    &&& frame.timestamp == 0
    &&& !frame.is_key_frame
    &&& frame.format == OutputFormat::RGB24
}

/// Whether `post` is `pre` after the frames were added in order at `now`,
/// none of them decoded ahead of playback.
pub open spec fn frames_added(
    pre: FrameBuffer,
    post: FrameBuffer,
    frames: Seq<DecodedFrame>,
    now: u64,
) -> bool
    decreases frames.len(),
{
    if frames.len() == 0 {
        pre.unchanged(&post)
    } else {
        exists|mid: FrameBuffer|
            mid.wf() && frames_added(pre, mid, frames.drop_last(), now)
                && #[trigger] mid.frame_added(&post, frames.last(), now, false)
    }
}

/// The frames of an optional list.
pub open spec fn frames_of(decoded: Option<Vec<DecodedFrame>>) -> Option<Seq<DecodedFrame>> {
    match decoded {
        Some(frames) => Some(frames@),
        None => None,
    }
}

/// Whether `post` is `pre` after a frame with the cached bytes was added at
/// `now`; a buffer without capacity stays as it is.
pub open spec fn cached_frame_added(pre: FrameBuffer, post: FrameBuffer, bytes: Seq<u8>, now: u64) -> bool {
    if pre.max_frames() == 0 {
        pre.unchanged(&post)
    } else {
        exists|frame: DecodedFrame|
            is_cached_frame(frame, bytes) && #[trigger] pre.frame_added(&post, frame, now, false)
    }
}

/// The main video engine.
pub struct VideoEngine {
    chunk_manager: ChunkManager,
    frame_buffer: FrameBuffer,
    cache_manager: CacheManager,
    is_running: bool,
    refused_chunks: usize,
    refused_tasks: usize,
}

impl VideoEngine {
    /// The chunk manager.
    pub closed spec fn chunks(&self) -> ChunkManager {
        self.chunk_manager
    }

    /// The playback buffer.
    pub closed spec fn frames(&self) -> FrameBuffer {
        self.frame_buffer
    }

    /// The cache of chunks and decoded frames.
    pub closed spec fn cache(&self) -> CacheManager {
        self.cache_manager
    }

    /// Whether the processing loop is meant to run.
    pub closed spec fn running(&self) -> bool {
        self.is_running
    }

    /// The number of chunks that were refused because memory was critical.
    pub closed spec fn refused_chunks(&self) -> usize {
        self.refused_chunks
    }

    /// The number of pre-decode tasks that were refused because memory was
    /// critical.
    pub closed spec fn refused_tasks(&self) -> usize {
        self.refused_tasks
    }

    /// Whether the counts of refused work are those of `pre`.
    pub open spec fn same_refusals(&self, pre: &VideoEngine) -> bool {
        &&& self.refused_chunks() == pre.refused_chunks()
        &&& self.refused_tasks() == pre.refused_tasks()
    }

    /// The invariant: those of the three components.
    pub open spec fn wf(&self) -> bool {
        &&& self.chunks().wf()
        &&& self.frames().wf()
        &&& self.cache().wf()
    }

    /// An engine with an empty chunk manager, a playback buffer for 60
    /// frames per second and an empty cache, not running.
    pub fn new() -> (made: Result<VideoEngine, VideoEngineError>)
        ensures
            made matches Ok(engine) && engine.wf() && !engine.running()
                && engine.frames().is_fresh() && engine.frames().max_frames() == 120
                && engine.frames().target_fps() == 60 && engine.frames().min_predecoded() == 10
                && engine.chunks().chunks() == Seq::<VideoChunk>::empty()
                && engine.refused_chunks() == 0 && engine.refused_tasks() == 0
                && engine.cache().store().entries()
                == Seq::<crate::persistent_cache::EntryModel>::empty(),
    {
        let frame_buffer = match FrameBuffer::new(60) {
            Ok(buffer) => buffer,
            Err(e) => {
                return Err(e);
            },
        };
        let cache_manager = match CacheManager::new() {
            Ok(cache) => cache,
            Err(e) => {
                return Err(e);
            },
        };
        Ok(
            VideoEngine {
                chunk_manager: ChunkManager::new(),
                frame_buffer,
                cache_manager,
                is_running: false,
                refused_chunks: 0,
                refused_tasks: 0,
            },
        )
    }

    /// Marks the engine as running. Says whether it was stopped before, in
    /// which case the host starts the processing loop.
    pub fn start(&mut self) -> (started: bool)
        ensures
            started == !old(self).running(),
            final(self).running(),
            final(self).same_refusals(old(self)),
            final(self).chunks() == old(self).chunks(),
            final(self).frames() == old(self).frames(),
            final(self).cache() == old(self).cache(),
    {
        let started = !self.is_running;
        self.is_running = true;
        started
    }

    /// Marks the engine as stopped: the processing loop leaves at its next
    /// step.
    pub fn stop(&mut self)
        ensures
            !final(self).running(),
            final(self).same_refusals(old(self)),
            final(self).chunks() == old(self).chunks(),
            final(self).frames() == old(self).frames(),
            final(self).cache() == old(self).cache(),
    {
        self.is_running = false;
    }

    /// Whether the processing loop is meant to run.
    pub fn is_running(&self) -> (running: bool)
        ensures
            running == self.running(),
    {
        self.is_running
    }

    /// Takes in a chunk that arrived at `now`: the chunk is cached under its
    /// id, then handed to the chunk manager.
    pub fn add_chunk_at(&mut self, chunk_id: &str, data: &[u8], now: u64) -> (done: Result<
        (),
        VideoEngineError,
    >)
        requires
            old(self).wf(),
        ensures
            final(self).wf(),
            final(self).running() == old(self).running(),
            final(self).same_refusals(old(self)),
            final(self).frames() == old(self).frames(),
            old(self).cache().store().stored(
                &final(self).cache().store(),
                chunk_id@,
                "video_url"@,
                data@,
                false,
                0,
                now,
            ),
            done is Err <==> !crate::chunk_manager::has_id(old(self).chunks().chunks(), chunk_id@)
                && old(self).chunks().next_sequence() == u32::MAX,
            done is Ok ==> old(self).chunks().chunk_added(&final(self).chunks(), chunk_id@, data@, now),
            done is Err ==> final(self).chunks().chunks() == old(self).chunks().chunks(),
    {
        self.cache_manager.store_chunk_at(chunk_id, "video_url", data, false, 0, now);
        self.chunk_manager.add_chunk_at(chunk_id, data, now)
    }

    /// Takes in a chunk that arrived at `now`, unless memory is critical: in
    /// that state the chunk is refused and counted, and nothing else
    /// changes.
    pub fn admit_chunk_at(
        &mut self,
        health: MemoryHealth,
        chunk_id: &str,
        data: &[u8],
        now: u64,
    ) -> (done: Result<(), VideoEngineError>)
        requires
            old(self).wf(),
        ensures
            final(self).wf(),
            final(self).running() == old(self).running(),
            final(self).frames() == old(self).frames(),
            final(self).refused_tasks() == old(self).refused_tasks(),
            health is Critical ==> {
                &&& done matches Err(e) && e is ResourceUnavailable
                &&& final(self).chunks() == old(self).chunks()
                &&& final(self).cache() == old(self).cache()
                &&& final(self).refused_chunks() == crate::chunk_manager::bump(
                    old(self).refused_chunks(),
                )
            },
            !(health is Critical) ==> {
                &&& final(self).refused_chunks() == old(self).refused_chunks()
                &&& old(self).cache().store().stored(
                    &final(self).cache().store(),
                    chunk_id@,
                    "video_url"@,
                    data@,
                    false,
                    0,
                    now,
                )
                &&& done is Err <==> !crate::chunk_manager::has_id(
                    old(self).chunks().chunks(),
                    chunk_id@,
                ) && old(self).chunks().next_sequence() == u32::MAX
                &&& done is Ok ==> old(self).chunks().chunk_added(
                    &final(self).chunks(),
                    chunk_id@,
                    data@,
                    now,
                )
                &&& done is Err ==> final(self).chunks().chunks() == old(self).chunks().chunks()
            },
    {
        match health {
            MemoryHealth::Critical => {
                if self.refused_chunks < usize::MAX {
                    self.refused_chunks = self.refused_chunks + 1;
                }
                Err(resource_unavailable("memory is critical, the chunk was not taken in"))
            },
            _ => self.add_chunk_at(chunk_id, data, now),
        }
    }

    /// Enters a chunk into the pre-decode queue, stamped with `now`, unless
    /// memory is critical: in that state the task is refused and counted,
    /// and nothing else changes.
    pub fn admit_predecode_task_at(
        &mut self,
        health: MemoryHealth,
        chunk_id: String,
        chunk_data: Vec<u8>,
        priority: PredecodePriority,
        now: u64,
    ) -> (done: Result<(), VideoEngineError>)
        requires
            old(self).wf(),
        ensures
            final(self).wf(),
            final(self).running() == old(self).running(),
            final(self).chunks() == old(self).chunks(),
            final(self).cache() == old(self).cache(),
            final(self).refused_chunks() == old(self).refused_chunks(),
            done is Err <==> health is Critical,
            health is Critical ==> {
                &&& done matches Err(e) && e is ResourceUnavailable
                &&& final(self).frames() == old(self).frames()
                &&& final(self).refused_tasks() == crate::chunk_manager::bump(
                    old(self).refused_tasks(),
                )
            },
            !(health is Critical) ==> {
                &&& final(self).refused_tasks() == old(self).refused_tasks()
                &&& old(self).frames().task_added(
                    &final(self).frames(),
                    PredecodeTask { chunk_id, chunk_data, priority, timestamp: now },
                )
            },
    {
        match health {
            MemoryHealth::Critical => {
                if self.refused_tasks < usize::MAX {
                    self.refused_tasks = self.refused_tasks + 1;
                }
                Err(resource_unavailable("memory is critical, the task was not queued"))
            },
            _ => {
                self.frame_buffer.add_predecode_task_at(chunk_id, chunk_data, priority, now);
                Ok(())
            },
        }
    }

    /// The number of chunks and of pre-decode tasks that were refused
    /// because memory was critical.
    pub fn get_refused_counts(&self) -> (counts: (usize, usize))
        ensures
            counts == (self.refused_chunks(), self.refused_tasks()),
    {
        (self.refused_chunks, self.refused_tasks)
    }

    /// Takes in a chunk, at the time that the clock shows.
    pub fn add_chunk(&mut self, chunk_id: &str, data: &[u8]) -> (done: Result<(), VideoEngineError>)
        requires
            old(self).wf(),
        ensures
            final(self).wf(),
            final(self).running() == old(self).running(),
            final(self).same_refusals(old(self)),
            final(self).frames() == old(self).frames(),
            has_key(final(self).cache().store().entries(), chunk_id@),
            done is Err <==> !crate::chunk_manager::has_id(old(self).chunks().chunks(), chunk_id@)
                && old(self).chunks().next_sequence() == u32::MAX,
            done is Ok ==> exists|now: u64| #[trigger]
                old(self).chunks().chunk_added(&final(self).chunks(), chunk_id@, data@, now),
    {
        let now = current_timestamp_ms();
        let ghost held = self.cache().store();
        let done = self.add_chunk_at(chunk_id, data, now);
        proof {
            crate::persistent_cache::lemma_stored_key(
                held,
                final(self).cache().store(),
                chunk_id@,
                "video_url"@,
                data@,
                false,
                0,
                now,
            );
            if done is Ok {
                assert(old(self).chunks().chunk_added(&final(self).chunks(), chunk_id@, data@, now));
            }
        }
        done
    }

    /// The payload of the next frame for display, as the playback buffer's
    /// `get_next_frame_at` hands it out at time `now`.
    pub fn get_next_frame_at(&mut self, now: u64) -> (data: Option<Vec<u8>>)
        requires
            old(self).wf(),
        ensures
            final(self).wf(),
            final(self).running() == old(self).running(),
            final(self).same_refusals(old(self)),
            final(self).chunks() == old(self).chunks(),
            final(self).cache() == old(self).cache(),
            old(self).frames().frame_taken(&final(self).frames(), now, bytes_of(data)),
    {
        self.frame_buffer.get_next_frame_at(now)
    }

    /// The payload of the next frame for display, at the time that the clock
    /// shows.
    pub fn get_next_frame(&mut self) -> (data: Option<Vec<u8>>)
        requires
            old(self).wf(),
        ensures
            final(self).wf(),
            final(self).running() == old(self).running(),
            final(self).same_refusals(old(self)),
            final(self).chunks() == old(self).chunks(),
            final(self).cache() == old(self).cache(),
            exists|now: u64| #[trigger]
                old(self).frames().frame_taken(&final(self).frames(), now, bytes_of(data)),
    {
        let now = current_timestamp_ms();
        let data = self.get_next_frame_at(now);
        proof {
            assert(old(self).frames().frame_taken(&final(self).frames(), now, bytes_of(data)));
        }
        data
    }

    /// Enters a chunk into the pre-decode queue, stamped with `now`, as the
    /// playback buffer's `add_predecode_task_at` does.
    pub fn add_predecode_task_at(
        &mut self,
        chunk_id: String,
        chunk_data: Vec<u8>,
        priority: PredecodePriority,
        now: u64,
    )
        requires
            old(self).wf(),
        ensures
            final(self).wf(),
            final(self).running() == old(self).running(),
            final(self).same_refusals(old(self)),
            final(self).chunks() == old(self).chunks(),
            final(self).cache() == old(self).cache(),
            old(self).frames().task_added(
                &final(self).frames(),
                PredecodeTask { chunk_id, chunk_data, priority, timestamp: now },
            ),
    {
        self.frame_buffer.add_predecode_task_at(chunk_id, chunk_data, priority, now)
    }

    /// What the pre-decode worker does next, as the playback buffer's
    /// `predecode_worker_step` says.
    pub fn predecode_worker_step(&mut self) -> (step: WorkerStep)
        requires
            old(self).wf(),
        ensures
            final(self).wf(),
            final(self).running() == old(self).running(),
            final(self).same_refusals(old(self)),
            final(self).chunks() == old(self).chunks(),
            final(self).cache() == old(self).cache(),
            final(self).frames().same_settings(&old(self).frames()),
            final(self).frames().same_frames(&old(self).frames()),
            final(self).frames().stop_requested() == old(self).frames().stop_requested(),
            old(self).frames().stop_requested() ==> step is Stop && final(self).frames().queue()
                == old(self).frames().queue(),
            !old(self).frames().stop_requested() && old(self).frames().queue().len() == 0 ==> step is Idle
                && final(self).frames().queue() == old(self).frames().queue(),
            !old(self).frames().stop_requested() && old(self).frames().queue().len() > 0 ==> step
                == WorkerStep::Decode(old(self).frames().queue()[0]) && final(self).frames().queue()
                == old(self).frames().queue().remove(0),
    {
        self.frame_buffer.predecode_worker_step()
    }

    /// Asks the pre-decode worker to stop at its next step.
    pub fn request_predecode_stop(&mut self)
        ensures
            final(self).running() == old(self).running(),
            final(self).same_refusals(old(self)),
            final(self).chunks() == old(self).chunks(),
            final(self).cache() == old(self).cache(),
            final(self).frames().stop_requested(),
            final(self).frames().same_settings(&old(self).frames()),
            final(self).frames().same_frames(&old(self).frames()),
            final(self).frames().queue() == old(self).frames().queue(),
    {
        self.frame_buffer.request_stop()
    }

    /// Publishes a frame that was decoded ahead of playback, at time `now`.
    pub fn add_predecoded_frame_at(&mut self, frame: DecodedFrame, now: u64) -> (done: Result<
        (),
        VideoEngineError,
    >)
        requires
            old(self).wf(),
        ensures
            final(self).wf(),
            final(self).running() == old(self).running(),
            final(self).same_refusals(old(self)),
            final(self).chunks() == old(self).chunks(),
            final(self).cache() == old(self).cache(),
            old(self).frames().max_frames() == 0 <==> done is Err,
            done matches Err(e) ==> e is BufferOverflow && old(self).frames().unchanged(
                &final(self).frames(),
            ),
            done is Ok ==> old(self).frames().frame_added(&final(self).frames(), frame, now, true),
    {
        self.frame_buffer.add_predecoded_frame_at(frame, now)
    }

    /// Whether playback can start, as the playback buffer's
    /// `is_ready_for_playback` says.
    pub fn is_ready_for_playback(&self) -> (ready: bool)
        ensures
            ready == (self.frames().frames().len() >= self.frames().target_fps() / 2
                && crate::frame_buffer::count_predecoded(self.frames().frames())
                >= self.frames().min_predecoded()),
    {
        self.frame_buffer.is_ready_for_playback()
    }

    /// The payload of the frame that arrived last.
    pub fn get_current_texture(&self) -> (data: Option<Vec<u8>>)
        ensures
            self.frames().frames().len() == 0 ==> data is None,
            self.frames().frames().len() > 0 ==> (data matches Some(bytes) && bytes@
                == self.frames().frames().last().frame.data@),
    {
        self.frame_buffer.get_current_frame()
    }

    /// Reads a cached chunk at time `now`.
    pub fn get_cached_chunk_at(&mut self, chunk_id: &str, now: u64) -> (data: Option<Vec<u8>>)
        requires
            old(self).wf(),
        ensures
            final(self).wf(),
            final(self).running() == old(self).running(),
            final(self).same_refusals(old(self)),
            final(self).chunks() == old(self).chunks(),
            final(self).frames() == old(self).frames(),
            old(self).cache().store().fetched(
                &final(self).cache().store(),
                chunk_id@,
                now,
                bytes_of(data),
            ),
    {
        self.cache_manager.get_chunk_at(chunk_id, now)
    }

    /// Reads a cached chunk, at the time that the clock shows.
    pub fn get_cached_chunk(&mut self, chunk_id: &str) -> (data: Option<Vec<u8>>)
        requires
            old(self).wf(),
        ensures
            final(self).wf(),
            final(self).running() == old(self).running(),
            final(self).same_refusals(old(self)),
            final(self).chunks() == old(self).chunks(),
            final(self).frames() == old(self).frames(),
            exists|now: u64| #[trigger]
                old(self).cache().store().fetched(
                    &final(self).cache().store(),
                    chunk_id@,
                    now,
                    bytes_of(data),
                ),
    {
        let now = current_timestamp_ms();
        self.get_cached_chunk_at(chunk_id, now)
    }

    /// Whether a chunk is cached.
    pub fn is_chunk_cached(&self, chunk_id: &str) -> (cached: bool)
        requires
            self.wf(),
        ensures
            cached == has_key(self.cache().store().entries(), chunk_id@),
    {
        self.cache_manager.is_chunk_cached(chunk_id)
    }

    /// The keys of the cached chunks of one video, in playback order.
    pub fn get_cached_video_chunks(&self, video_url: &str) -> (ids: Vec<String>)
        requires
            self.wf(),
        ensures
            ids@.len() == crate::persistent_cache::video_chunk_ids(
                self.cache().store().entries(),
                video_url@,
            ).len(),
            forall|i: int|
                0 <= i < ids@.len() ==> (#[trigger] ids@[i])@
                    == crate::persistent_cache::video_chunk_ids(
                    self.cache().store().entries(),
                    video_url@,
                )[i],
    {
        self.cache_manager.get_video_chunks(video_url)
    }

    /// The cache's counters.
    pub fn get_cache_stats(&self) -> (stats: CacheStats)
        ensures
            stats == crate::cache_manager::ephemeral_stats(
                crate::persistent_cache::PersistentCacheStats {
                    cache_utilization: crate::persistent_cache::per_mille(
                        self.cache().store().current_size(),
                        self.cache().store().max_size(),
                    ),
                    ..self.cache().store().counters()
                },
            ),
    {
        self.cache_manager.get_stats()
    }

    /// Empties the cache.
    pub fn clear_cache(&mut self)
        requires
            old(self).wf(),
        ensures
            final(self).wf(),
            final(self).running() == old(self).running(),
            final(self).same_refusals(old(self)),
            final(self).chunks() == old(self).chunks(),
            final(self).frames() == old(self).frames(),
            old(self).cache().store().cleared(&final(self).cache().store()),
    {
        self.cache_manager.clear_cache()
    }

    /// The engine's figures.
    pub fn get_stats(&self) -> (stats: EngineStats)
        ensures
            stats == (EngineStats {
                chunks_processed: self.chunks().processed_chunks(),
                frames_decoded: self.frames().frames().len() as usize,
                buffer_utilization: crate::frame_buffer::share(
                    self.frames().frames().len() as int,
                    self.frames().max_frames() as int,
                ),
                is_running: self.running(),
            }),
    {
        EngineStats {
            chunks_processed: self.chunk_manager.get_processed_count(),
            frames_decoded: self.frame_buffer.get_frame_count(),
            buffer_utilization: self.frame_buffer.get_utilization(),
            is_running: self.is_running,
        }
    }

    /// What one step of the processing loop does to the engine. A stopped
    /// engine does nothing. Otherwise processed chunks at the head of the
    /// chunk manager leave it; where no chunk is left the loop idles; where
    /// the oldest pending chunk has a decoded frame in the cache, that frame
    /// goes to the playback buffer and the chunk is marked as processed;
    /// where it has none, the chunk is handed out to be decoded.
    pub open spec fn step_taken(&self, post: &VideoEngine, step: ProcessingStep, now: u64) -> bool {
        let chunks = self.chunks().chunks();
        let at = first_unprocessed(chunks, 0);
        &&& post.running() == self.running()
        &&& post.same_refusals(self)
        &&& if !self.running() {
            &&& step is Stop
            &&& post.chunks() == self.chunks()
            &&& post.frames() == self.frames()
            &&& post.cache() == self.cache()
        } else if at >= chunks.len() {
            &&& step is Idle
            &&& post.chunks().same_counters(&self.chunks())
            &&& post.chunks().chunks() == chunks.skip(at)
            &&& post.frames() == self.frames()
            &&& post.cache() == self.cache()
        } else {
            exists|hit: Option<Seq<u8>>| #[trigger]
                self.cache().store().fetched(
                    &post.cache().store(),
                    decoded_key(chunks[at].id@),
                    now,
                    hit,
                ) && self.step_followed(post, step, now, hit)
        }
    }

    /// What follows the look into the cache of decoded frames in a step.
    pub open spec fn step_followed(
        &self,
        post: &VideoEngine,
        step: ProcessingStep,
        now: u64,
        hit: Option<Seq<u8>>,
    ) -> bool {
        let chunks = self.chunks().chunks();
        let at = first_unprocessed(chunks, 0);
        let c = chunks[at];
        match hit {
            None => {
                &&& step matches ProcessingStep::Decode { chunk_id, data }
                &&& chunk_id@ == c.id@
                &&& data@ == c.data@
                &&& post.frames() == self.frames()
                &&& post.chunks().same_counters(&self.chunks())
                &&& post.chunks().chunks() == chunks.skip(at)
            },
            Some(bytes) => {
                &&& step matches ProcessingStep::Served { chunk_id }
                &&& chunk_id@ == c.id@
                &&& cached_frame_added(self.frames(), post.frames(), bytes, now)
                &&& post.chunks().chunks() == chunks.skip(at).update(0, processed(c))
                &&& post.chunks().processed_chunks() == crate::chunk_manager::bump(
                    self.chunks().processed_chunks(),
                )
                &&& post.chunks().next_sequence() == self.chunks().next_sequence()
                &&& post.chunks().max_chunks() == self.chunks().max_chunks()
                &&& post.chunks().total_chunks() == self.chunks().total_chunks()
                &&& post.chunks().failed_chunks() == self.chunks().failed_chunks()
                &&& post.chunks().total_bytes() == self.chunks().total_bytes()
            },
        }
    }

    /// One step of the processing loop at time `now`.
    pub fn next_step_at(&mut self, now: u64) -> (step: ProcessingStep)
        requires
            old(self).wf(),
        ensures
            final(self).wf(),
            old(self).step_taken(final(self), step, now),
    {
        if !self.is_running {
            return ProcessingStep::Stop;
        }
        let ghost chunks = self.chunks().chunks();
        let ghost at = first_unprocessed(chunks, 0);
        proof {
            crate::chunk_manager::lemma_first_unprocessed(chunks, 0);
        }
        let (chunk_id, data) = match self.chunk_manager.get_next_chunk() {
            Some(pair) => pair,
            None => {
                return ProcessingStep::Idle;
            },
        };
        let key = String::from_str("decoded_").concat(chunk_id.as_str());
        let ghost held = self.cache().store();
        let cached = self.cache_manager.get_chunk_at(key.as_str(), now);
        match cached {
            None => {
                proof {
                    assert(old(self).cache().store().fetched(
                        &self.cache().store(),
                        decoded_key(chunks[at].id@),
                        now,
                        None,
                    ));
                }
                ProcessingStep::Decode { chunk_id, data }
            },
            Some(bytes) => {
                let ghost before = self.frames();
                let frame = DecodedFrame {
                    data: bytes,
                    width: CACHED_FRAME_WIDTH,
                    height: CACHED_FRAME_HEIGHT,
                    timestamp: 0,
                    is_key_frame: false,
                    format: OutputFormat::RGB24,
                };
                let added = self.frame_buffer.add_frame_at(frame, now);
                proof {
                    if before.max_frames() > 0 {
                        assert(is_cached_frame(frame, bytes@));
                        assert(before.frame_added(&self.frames(), frame, now, false));
                    }
                    lemma_id_index(self.chunks().chunks(), 0);
                }
                self.chunk_manager.mark_processed(chunk_id.as_str());
                proof {
                    assert(old(self).cache().store().fetched(
                        &self.cache().store(),
                        decoded_key(chunks[at].id@),
                        now,
                        Some(bytes@),
                    ));
                }
                ProcessingStep::Served { chunk_id }
            },
        }
    }

    /// One step of the processing loop, at the time that the clock shows.
    pub fn next_step(&mut self) -> (step: ProcessingStep)
        requires
            old(self).wf(),
        ensures
            final(self).wf(),
            exists|now: u64| #[trigger] old(self).step_taken(final(self), step, now),
    {
        let now = current_timestamp_ms();
        let step = self.next_step_at(now);
        proof {
            assert(old(self).step_taken(final(self), step, now));
        }
        step
    }

    /// What taking the result of a decode does to the engine. The chunk is
    /// marked as processed whether or not the decode succeeded. Where frames
    /// came out, the first of them is cached under the chunk's decoded key,
    /// and all of them go to the playback buffer in order.
    pub open spec fn decode_completed(
        &self,
        post: &VideoEngine,
        chunk_id: Seq<char>,
        decoded: Option<Seq<DecodedFrame>>,
        now: u64,
    ) -> bool {
        &&& post.running() == self.running()
        &&& post.same_refusals(self)
        &&& self.chunks().processed_marked(&post.chunks(), chunk_id)
        &&& if decoded is Some && decoded->0.len() > 0 {
            let frames = decoded->0;
            &&& self.cache().store().stored(
                &post.cache().store(),
                decoded_key(chunk_id),
                "decoded_frame"@,
                frames[0].data@,
                frames[0].is_key_frame,
                0,
                now,
            )
            &&& if self.frames().max_frames() == 0 {
                self.frames().unchanged(&post.frames())
            } else {
                frames_added(self.frames(), post.frames(), frames, now)
            }
        } else {
            &&& post.cache() == self.cache()
            &&& post.frames() == self.frames()
        }
    }

    /// Takes the result of a decode at time `now`: the frames, or nothing
    /// where the decode failed. Returns the number of frames that went to
    /// the playback buffer.
    pub fn complete_decode_at(
        &mut self,
        chunk_id: &str,
        decoded: Option<Vec<DecodedFrame>>,
        now: u64,
    ) -> (published: usize)
        requires
            old(self).wf(),
        ensures
            final(self).wf(),
            old(self).decode_completed(
                final(self),
                chunk_id@,
                frames_of(decoded),
                now,
            ),
            published == match decoded {
                Some(frames) => if old(self).frames().max_frames() == 0 {
                    0
                } else {
                    frames@.len()
                },
                None => 0,
            },
    {
        let mut published: usize = 0;
        match decoded {
            Some(frames) => {
                if frames.len() > 0 {
                    let key = String::from_str("decoded_").concat(chunk_id);
                    self.cache_manager.store_chunk_at(
                        key.as_str(),
                        "decoded_frame",
                        frames[0].data.as_slice(),
                        frames[0].is_key_frame,
                        0,
                        now,
                    );
                    let ghost all = frames@;
                    let ghost mut moved: int = 0;
                    let mut rest = frames;
                    proof {
                        assert(all.skip(0) =~= all);
                        assert(all.subrange(0, 0) =~= Seq::<DecodedFrame>::empty());
                    }
                    while rest.len() > 0
                        invariant
                            0 <= moved <= all.len(),
                            all.len() <= usize::MAX,
                            published <= moved,
                            rest@ == all.skip(moved),
                            self.frames().wf(),
                            self.chunks() == old(self).chunks(),
                            self.running() == old(self).running(),
                            self.same_refusals(old(self)),
                            self.cache().wf(),
                            old(self).cache().store().stored(
                                &self.cache().store(),
                                decoded_key(chunk_id@),
                                "decoded_frame"@,
                                all[0].data@,
                                all[0].is_key_frame,
                                0,
                                now,
                            ),
                            self.frames().max_frames() == old(self).frames().max_frames(),
                            if old(self).frames().max_frames() == 0 {
                                old(self).frames().unchanged(&self.frames()) && published == 0
                            } else {
                                frames_added(
                                    old(self).frames(),
                                    self.frames(),
                                    all.subrange(0, moved),
                                    now,
                                ) && published == moved
                            },
                        decreases rest.len(),
                    {
                        let frame = rest.remove(0);
                        let ghost mid = self.frames();
                        let added = self.frame_buffer.add_frame_at(frame, now);
                        if added.is_ok() {
                            published = published + 1;
                        }
                        proof {
                            assert(frame == all[moved]);
                            assert(rest@ =~= all.skip(moved + 1));
                            if old(self).frames().max_frames() > 0 {
                                assert(all.subrange(0, moved + 1).drop_last() =~= all.subrange(
                                    0,
                                    moved,
                                ));
                                assert(all.subrange(0, moved + 1).last() == frame);
                                assert(mid.frame_added(&self.frames(), frame, now, false));
                            }
                            moved = moved + 1;
                        }
                    }
                    proof {
                        assert(all.subrange(0, moved) =~= all);
                    }
                }
            },
            None => {},
        }
        self.chunk_manager.mark_processed(chunk_id);
        published
    }

    /// Takes the result of a decode, at the time that the clock shows.
    pub fn complete_decode(&mut self, chunk_id: &str, decoded: Option<Vec<DecodedFrame>>) -> (published:
        usize)
        requires
            old(self).wf(),
        ensures
            final(self).wf(),
            exists|now: u64| #[trigger]
                old(self).decode_completed(
                    final(self),
                    chunk_id@,
                    frames_of(decoded),
                    now,
                ),
    {
        let now = current_timestamp_ms();
        let published = self.complete_decode_at(chunk_id, decoded, now);
        proof {
            assert(old(self).decode_completed(
                final(self),
                chunk_id@,
                frames_of(decoded),
                now,
            ));
        }
        published
    }
}

} // verus!
