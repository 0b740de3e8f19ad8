//! The playback buffer: a bounded ring of decoded frames, and the queue of
//! chunks that wait to be decoded ahead of playback.

use crate::decoder::DecodedFrame;
use crate::decoder::OutputFormat;
use crate::utils::error::buffer_overflow;
use crate::utils::error::invalid_parameter;
use crate::utils::error::VideoEngineError;
use crate::utils::time::current_timestamp_ms;
use std::collections::VecDeque;
use vstd::prelude::*;

verus! {

/// A consumed frame is stale once it has been in the buffer for longer than
/// this many milliseconds.
pub const STALE_AFTER_MS: u64 = 1000;

/// The worker's pause after a task, in milliseconds.
pub const BUSY_BACKOFF_MS: u64 = 1;

/// The worker's pause when the queue is empty, in milliseconds.
pub const IDLE_BACKOFF_MS: u64 = 10;

/// Width of the test pattern in pixels.
pub const PATTERN_WIDTH: usize = 1080;

/// Height of the test pattern in pixels.
pub const PATTERN_HEIGHT: usize = 1920;

/// Length of the test pattern in bytes: three for each pixel.
pub const PATTERN_BYTES: usize = 6220800;

/// The spacing of simulated frames in microseconds: one frame at 60 frames
/// per second.
pub const SIMULATED_FRAME_SPACING: u64 = 16667;

/// The most frames that one simulated chunk yields.
pub const SIMULATED_FRAMES_MAX: usize = 5;

/// How urgent a pre-decode task is.
#[derive(Debug, Clone, Copy, PartialEq, Eq, PartialOrd, Ord)]
pub enum PredecodePriority {
    /// Key frames, first frames.
    High,
    /// Regular frames.
    Medium,
    /// Background frames.
    Low,
}

/// A chunk that waits to be decoded ahead of playback.
#[derive(Debug, Clone)]
pub struct PredecodeTask {
    pub chunk_id: String,
    pub chunk_data: Vec<u8>,
    pub priority: PredecodePriority,
    pub timestamp: u64,
}

/// A decoded frame in the buffer.
#[derive(Debug, Clone)]
pub struct BufferedFrame {
    pub frame: DecodedFrame,
    pub buffer_index: usize,
    pub added_timestamp: u64,
    pub is_consumed: bool,
    pub is_predecoded: bool,
}

/// Frame rate figures. `current_fps` is in thousandths of a frame per
/// second, `efficiency` in thousandths of the target rate.
#[derive(Debug, Clone, Copy, PartialEq, Eq)]
pub struct FrameRateStats {
    pub current_fps: u64,
    pub target_fps: u32,
    pub efficiency: u64,
    pub total_frames: usize,
    pub dropped_frames: usize,
    pub predecoded_frames: usize,
}

/// Buffer figures. `utilization` is in thousandths of the capacity.
#[derive(Debug, Clone, Copy, PartialEq, Eq)]
pub struct BufferStats {
    pub frame_count: usize,
    pub max_frames: usize,
    pub utilization: u64,
    pub memory_usage: usize,
    pub total_processed: usize,
    pub dropped_frames: usize,
    pub is_ready: bool,
    pub predecoded_frames: usize,
    pub min_predecoded_frames: usize,
}

/// What the pre-decode worker does next.
#[derive(Debug)]
pub enum WorkerStep {
    /// Stop was asked for: leave the loop.
    Stop,
    /// Decode the task, publish its frames, pause for `BUSY_BACKOFF_MS`.
    Decode(PredecodeTask),
    /// Nothing to do: pause for `IDLE_BACKOFF_MS`.
    Idle,
}

/// `x + 1`, stopping at the largest `usize`.
pub open spec fn bump(x: usize) -> usize {
    if x < usize::MAX {
        (x + 1) as usize
    } else {
        x
    }
}

/// The number of frames that were decoded ahead of playback.
pub open spec fn count_predecoded(frames: Seq<BufferedFrame>) -> nat
    decreases frames.len(),
{
    if frames.len() == 0 {
        0
    } else {
        count_predecoded(frames.drop_last()) + if frames.last().is_predecoded {
            1nat
        } else {
            0nat
        }
    }
}

/// The sum of the frames' payload lengths.
pub open spec fn payload_bytes(frames: Seq<BufferedFrame>) -> nat
    decreases frames.len(),
{
    if frames.len() == 0 {
        0
    } else {
        payload_bytes(frames.drop_last()) + frames.last().frame.data@.len()
    }
}

/// The position of the first frame, from `from` on, that was not consumed;
/// the length where there is none.
pub open spec fn first_unconsumed(frames: Seq<BufferedFrame>, from: int) -> int
    decreases frames.len() - from,
{
    if 0 <= from < frames.len() && frames[from].is_consumed {
        first_unconsumed(frames, from + 1)
    } else {
        from
    }
}

/// The position of the first frame, from `from` on, with the buffer index;
/// the length where there is none.
pub open spec fn first_with_index(frames: Seq<BufferedFrame>, index: usize, from: int) -> int
    decreases frames.len() - from,
{
    if 0 <= from < frames.len() && frames[from].buffer_index != index {
        first_with_index(frames, index, from + 1)
    } else {
        from
    }
}

/// The bytes of an optional payload.
pub open spec fn payload_of(data: Option<Vec<u8>>) -> Option<Seq<u8>> {
    match data {
        Some(bytes) => Some(bytes@),
        None => None,
    }
}

/// The frame, marked as consumed.
pub open spec fn consumed(f: BufferedFrame) -> BufferedFrame {
    BufferedFrame { is_consumed: true, ..f }
}

/// Whether a frame was consumed and has been in the buffer for longer than
/// the staleness window.
pub open spec fn is_stale(f: BufferedFrame, now: u64) -> bool {
    f.is_consumed && now > f.added_timestamp && now - f.added_timestamp > STALE_AFTER_MS
}

/// The frames that are not stale, in order.
pub open spec fn retained(frames: Seq<BufferedFrame>, now: u64) -> Seq<BufferedFrame>
    decreases frames.len(),
{
    if frames.len() == 0 {
        Seq::empty()
    } else if is_stale(frames.last(), now) {
        retained(frames.drop_last(), now)
    } else {
        retained(frames.drop_last(), now).push(frames.last())
    }
}

/// The place of a priority in the order of service: the lower, the sooner.
pub open spec fn rank(p: PredecodePriority) -> int {
    match p {
        PredecodePriority::High => 0,
        PredecodePriority::Medium => 1,
        PredecodePriority::Low => 2,
    }
}

/// Whether no task stands behind a task of lower urgency.
pub open spec fn queue_sorted(queue: Seq<PredecodeTask>) -> bool {
    forall|i: int, j: int|
        0 <= i < j < queue.len() ==> rank((#[trigger] queue[i]).priority) <= rank(
            (#[trigger] queue[j]).priority,
        )
}

/// The position of the first task, from `from` on, that is less urgent than
/// `priority`; the length where there is none.
pub open spec fn first_behind(queue: Seq<PredecodeTask>, priority: PredecodePriority, from: int) -> int
    decreases queue.len() - from,
{
    if 0 <= from < queue.len() && rank(queue[from].priority) <= rank(priority) {
        first_behind(queue, priority, from + 1)
    } else {
        from
    }
}

/// Where a task of the given priority enters the queue: behind every task
/// that is as urgent or more urgent, in front of the first that is less
/// urgent. Tasks of one priority leave in the order in which they came.
pub open spec fn entry_point(queue: Seq<PredecodeTask>, priority: PredecodePriority) -> int {
    first_behind(queue, priority, 0)
}

/// The frame rate over the buffered window, in thousandths of a frame per
/// second: the number of frames over the span of their timestamps, 0 where
/// there are fewer than two frames or no span.
pub open spec fn window_fps(frames: Seq<BufferedFrame>) -> u64 {
    if frames.len() > 1 && frames.last().frame.timestamp > frames[0].frame.timestamp {
        let span = frames.last().frame.timestamp - frames[0].frame.timestamp;
        let rate = (frames.len() as int) * 1000000 / (span as int);
        if rate <= u64::MAX {
            rate as u64
        } else {
            u64::MAX
        }
    } else {
        0
    }
}

/// `part` per thousand of `whole`; 0 where `whole` is 0.
pub open spec fn share(part: int, whole: int) -> u64 {
    if whole <= 0 {
        0
    } else if part * 1000 / whole <= u64::MAX {
        (part * 1000 / whole) as u64
    } else {
        u64::MAX
    }
}

/// Byte `k` of the test pattern: a red ramp from left to right, a green
/// ramp from top to bottom, and a blue level that depends on the frame.
pub open spec fn pattern_byte(k: int, frame_index: usize, timestamp: u64) -> u8 {
    let pixel = k / 3;
    let x = pixel % (PATTERN_WIDTH as int);
    let y = pixel / (PATTERN_WIDTH as int);
    if k % 3 == 0 {
        (x * 255 / (PATTERN_WIDTH as int)) as u8
    } else if k % 3 == 1 {
        (y * 255 / (PATTERN_HEIGHT as int)) as u8
    } else {
        ((frame_index * 50 + timestamp / 1000) % 255) as u8
    }
}

/// The test pattern of a frame: 1080 by 1920 pixels of three bytes.
pub open spec fn spec_test_frame_data(frame_index: usize, timestamp: u64) -> Seq<u8> {
    Seq::new(PATTERN_BYTES as nat, |k: int| pattern_byte(k, frame_index, timestamp))
}

/// The number of frames that a simulated chunk of `len` bytes yields: one
/// for each full kilobyte, five at most.
pub open spec fn simulated_frame_count(len: int) -> int {
    if len / 1024 < SIMULATED_FRAMES_MAX {
        len / 1024
    } else {
        SIMULATED_FRAMES_MAX as int
    }
}

/// The timestamp of the `i`-th simulated frame of a task stamped `start`,
/// stopping at the largest `u64`.
pub open spec fn simulated_timestamp(start: u64, i: int) -> u64 {
    if start + i * SIMULATED_FRAME_SPACING <= u64::MAX {
        (start + i * SIMULATED_FRAME_SPACING) as u64
    } else {
        u64::MAX
    }
}

/// The frames of the playback buffer and the pre-decode queue.
pub struct FrameBuffer {
    frames: VecDeque<BufferedFrame>,
    max_frames: usize,
    target_fps: u32,
    min_predecoded_frames: usize,
    current_frame_index: usize,
    total_frames_processed: usize,
    dropped_frames: usize,
    last_frame_timestamp: u64,
    stop_predecode: bool,
    predecode_queue: VecDeque<PredecodeTask>,
}

impl FrameBuffer {
    /// The buffered frames, oldest first.
    pub closed spec fn frames(&self) -> Seq<BufferedFrame> {
        self.frames@
    }

    /// The pre-decode queue, next task first.
    pub closed spec fn queue(&self) -> Seq<PredecodeTask> {
        self.predecode_queue@
    }

    /// The capacity in frames.
    pub closed spec fn max_frames(&self) -> usize {
        self.max_frames
    }

    /// The target frame rate.
    pub closed spec fn target_fps(&self) -> u32 {
        self.target_fps
    }

    /// The number of pre-decoded frames that playback waits for.
    pub closed spec fn min_predecoded(&self) -> usize {
        self.min_predecoded_frames
    }

    /// The buffer index that the next frame gets.
    pub closed spec fn next_index(&self) -> usize {
        self.current_frame_index
    }

    /// The number of frames that were added.
    pub closed spec fn total_processed(&self) -> usize {
        self.total_frames_processed
    }

    /// The number of frames that were dropped before they were consumed.
    pub closed spec fn dropped(&self) -> usize {
        self.dropped_frames
    }

    /// The timestamp of the frame that was added last.
    pub closed spec fn last_timestamp(&self) -> u64 {
        self.last_frame_timestamp
    }

    /// Whether the worker was asked to stop.
    pub closed spec fn stop_requested(&self) -> bool {
        self.stop_predecode
    }

    /// The invariant: the buffer holds no more frames than its capacity, the
    /// next buffer index is below the capacity, and the queue is sorted by
    /// priority.
    pub open spec fn wf(&self) -> bool {
        &&& self.frames().len() <= self.max_frames()
        &&& self.max_frames() > 0 ==> self.next_index() < self.max_frames()
        &&& self.max_frames() == 0 ==> self.next_index() == 0
        &&& queue_sorted(self.queue())
    }

    /// Whether capacity, rates and thresholds are those of `pre`.
    pub open spec fn same_settings(&self, pre: &FrameBuffer) -> bool {
        &&& self.max_frames() == pre.max_frames()
        &&& self.target_fps() == pre.target_fps()
        &&& self.min_predecoded() == pre.min_predecoded()
    }

    /// Whether the frames and their accounting are those of `pre`.
    pub open spec fn same_frames(&self, pre: &FrameBuffer) -> bool {
        &&& self.frames() == pre.frames()
        &&& self.next_index() == pre.next_index()
        &&& self.total_processed() == pre.total_processed()
        &&& self.dropped() == pre.dropped()
        &&& self.last_timestamp() == pre.last_timestamp()
    }

    /// Whether the buffer is empty and all its counters are at zero.
    pub open spec fn is_fresh(&self) -> bool {
        &&& self.frames() == Seq::<BufferedFrame>::empty()
        &&& self.queue() == Seq::<PredecodeTask>::empty()
        &&& self.next_index() == 0
        &&& self.total_processed() == 0
        &&& self.dropped() == 0
        &&& self.last_timestamp() == 0
    }

    /// A buffer for two seconds of frames at the target rate, which waits
    /// for 10 pre-decoded frames. It is refused where two seconds of frames
    /// are more than a `usize` counts.
    pub fn new(target_fps: u32) -> (made: Result<FrameBuffer, VideoEngineError>)
        ensures
            target_fps * 2 <= usize::MAX <==> made is Ok,
            made matches Ok(buffer) ==> {
                &&& buffer.wf()
                &&& buffer.is_fresh()
                &&& !buffer.stop_requested()
                &&& buffer.max_frames() == target_fps * 2
                &&& buffer.target_fps() == target_fps
                &&& buffer.min_predecoded() == 10
            },
            made matches Err(e) ==> e is InvalidParameter,
    {
        let capacity: u64 = (target_fps as u64) * 2;
        if capacity > usize::MAX as u64 {
            return Err(invalid_parameter("frame capacity does not fit in memory"));
        }
        FrameBuffer::with_capacity_and_predecode(capacity as usize, target_fps, 10)
    }

    /// An empty buffer with the given capacity, target rate and number of
    /// pre-decoded frames to wait for.
    pub fn with_capacity_and_predecode(
        max_frames: usize,
        target_fps: u32,
        min_predecoded_frames: usize,
    ) -> (made: Result<FrameBuffer, VideoEngineError>)
        ensures
            made matches Ok(buffer) && {
                &&& buffer.wf()
                &&& buffer.is_fresh()
                &&& !buffer.stop_requested()
                &&& buffer.max_frames() == max_frames
                &&& buffer.target_fps() == target_fps
                &&& buffer.min_predecoded() == min_predecoded_frames
            },
    {
        Ok(
            FrameBuffer {
                frames: VecDeque::new(),
                max_frames,
                target_fps,
                min_predecoded_frames,
                current_frame_index: 0,
                total_frames_processed: 0,
                dropped_frames: 0,
                last_frame_timestamp: 0,
                stop_predecode: false,
                predecode_queue: VecDeque::new(),
            },
        )
    }

    /// What entering a task does to the queue.
    pub open spec fn task_added(&self, post: &FrameBuffer, task: PredecodeTask) -> bool {
        &&& post.same_settings(self)
        &&& post.same_frames(self)
        &&& post.stop_requested() == self.stop_requested()
        &&& post.queue() == self.queue().insert(entry_point(self.queue(), task.priority), task)
    }

    /// Enters a chunk into the pre-decode queue, stamped with `now`: behind
    /// the last task that is as urgent or more urgent, in front of the
    /// first that is less urgent. Tasks of one priority are served in the
    /// order in which they came.
    pub fn add_predecode_task_at(
        &mut self,
        chunk_id: String,
        chunk_data: Vec<u8>,
        priority: PredecodePriority,
        now: u64,
    )
        requires
            old(self).wf(),
        ensures
            final(self).wf(),
            old(self).task_added(
                final(self),
                PredecodeTask { chunk_id, chunk_data, priority, timestamp: now },
            ),
    {
        let task = PredecodeTask { chunk_id, chunk_data, priority, timestamp: now };
        proof {
            lemma_entry_keeps_sorted(self.queue(), task);
        }
        let urgency = priority_rank(priority);
        let mut at: usize = 0;
        while at < self.predecode_queue.len() && priority_rank(self.predecode_queue[at].priority)
            <= urgency
            invariant
                at <= self.predecode_queue.len(),
                urgency == rank(priority),
                self.queue() == old(self).queue(),
                first_behind(self.queue(), priority, at as int) == first_behind(
                    self.queue(),
                    priority,
                    0,
                ),
            decreases self.predecode_queue.len() - at,
        {
            at = at + 1;
        }
        self.predecode_queue.insert(at, task);
    }

    /// Enters a chunk into the pre-decode queue, stamped with the time that
    /// the clock shows.
    pub fn add_predecode_task(
        &mut self,
        chunk_id: String,
        chunk_data: Vec<u8>,
        priority: PredecodePriority,
    )
        requires
            old(self).wf(),
        ensures
            final(self).wf(),
            exists|now: u64| #[trigger]
                old(self).task_added(
                    final(self),
                    PredecodeTask { chunk_id, chunk_data, priority, timestamp: now },
                ),
    {
        let now = current_timestamp_ms();
        self.add_predecode_task_at(chunk_id, chunk_data, priority, now);
        proof {
            assert(old(self).task_added(
                final(self),
                PredecodeTask { chunk_id, chunk_data, priority, timestamp: now },
            ));
        }
    }

    /// Takes the next task off the queue, if there is one.
    pub fn next_predecode_task(&mut self) -> (task: Option<PredecodeTask>)
        requires
            old(self).wf(),
        ensures
            final(self).wf(),
            final(self).same_settings(old(self)),
            final(self).same_frames(old(self)),
            final(self).stop_requested() == old(self).stop_requested(),
            old(self).queue().len() == 0 ==> task is None && final(self).queue() == old(self).queue(),
            old(self).queue().len() > 0 ==> task == Some(old(self).queue()[0]) && final(self).queue() == old(self).queue().remove(0),
    {
        if self.predecode_queue.len() == 0 {
            None
        } else {
            let task = self.predecode_queue.pop_front();
            proof {
                assert(self.queue() =~= old(self).queue().remove(0));
                assert forall|i: int, j: int| 0 <= i < j < self.queue().len() implies rank(
                    (#[trigger] self.queue()[i]).priority,
                ) <= rank((#[trigger] self.queue()[j]).priority) by {
                    assert(self.queue()[i] == old(self).queue()[i + 1]);
                    assert(self.queue()[j] == old(self).queue()[j + 1]);
                }
            }
            task
        }
    }

    /// The number of tasks that wait.
    pub fn get_predecode_queue_len(&self) -> (n: usize)
        ensures
            n == self.queue().len(),
    {
        self.predecode_queue.len()
    }

    /// The id of the task at position `i` of the queue.
    pub fn get_predecode_task_id(&self, i: usize) -> (id: Option<String>)
        ensures
            i < self.queue().len() ==> (id matches Some(s) && s@ == self.queue()[i as int].chunk_id@),
            i >= self.queue().len() ==> id is None,
    {
        if i < self.predecode_queue.len() {
            Some(self.predecode_queue[i].chunk_id.clone())
        } else {
            None
        }
    }

    /// The priority of the task at position `i` of the queue.
    pub fn get_predecode_task_priority(&self, i: usize) -> (p: Option<PredecodePriority>)
        ensures
            i < self.queue().len() ==> p == Some(self.queue()[i as int].priority),
            i >= self.queue().len() ==> p is None,
    {
        if i < self.predecode_queue.len() {
            Some(self.predecode_queue[i].priority)
        } else {
            None
        }
    }

    /// Asks the worker to stop at its next step.
    pub fn request_stop(&mut self)
        ensures
            final(self).stop_requested(),
            final(self).same_settings(old(self)),
            final(self).same_frames(old(self)),
            final(self).queue() == old(self).queue(),
    {
        self.stop_predecode = true;
    }

    /// What the worker does next: it stops where stop was asked for, takes
    /// the next task where there is one, and idles otherwise.
    pub fn predecode_worker_step(&mut self) -> (step: WorkerStep)
        requires
            old(self).wf(),
        ensures
            final(self).wf(),
            final(self).same_settings(old(self)),
            final(self).same_frames(old(self)),
            final(self).stop_requested() == old(self).stop_requested(),
            old(self).stop_requested() ==> step is Stop && final(self).queue() == old(self).queue(),
            !old(self).stop_requested() && old(self).queue().len() == 0 ==> step is Idle && final(self).queue() == old(self).queue(),
            !old(self).stop_requested() && old(self).queue().len() > 0 ==> step == WorkerStep::Decode(
                old(self).queue()[0],
            ) && final(self).queue() == old(self).queue().remove(0),
    {
        if self.stop_predecode {
            return WorkerStep::Stop;
        }
        match self.next_predecode_task() {
            Some(task) => WorkerStep::Decode(task),
            None => WorkerStep::Idle,
        }
    }

    /// What adding a frame does to a buffer that has a capacity. Where the
    /// buffer is full, the oldest frame leaves first, and is counted as
    /// dropped if it was never consumed. The new frame gets the next buffer
    /// index, which wraps at the capacity.
    pub open spec fn frame_added(
        &self,
        post: &FrameBuffer,
        frame: DecodedFrame,
        now: u64,
        predecoded: bool,
    ) -> bool {
        let full = self.frames().len() >= self.max_frames();
        let kept = if full {
            self.frames().remove(0)
        } else {
            self.frames()
        };
        &&& post.same_settings(self)
        &&& post.queue() == self.queue()
        &&& post.stop_requested() == self.stop_requested()
        &&& post.frames() == kept.push(
            BufferedFrame {
                frame,
                buffer_index: self.next_index(),
                added_timestamp: now,
                is_consumed: false,
                is_predecoded: predecoded,
            },
        )
        &&& post.next_index() == (self.next_index() + 1) % (self.max_frames() as int)
        &&& post.total_processed() == bump(self.total_processed())
        &&& post.last_timestamp() == frame.timestamp
        &&& post.dropped() == if full && !self.frames()[0].is_consumed {
            bump(self.dropped())
        } else {
            self.dropped()
        }
    }

    /// Whether nothing but the clock's reading is left open.
    pub open spec fn unchanged(&self, post: &FrameBuffer) -> bool {
        &&& post.same_settings(self)
        &&& post.same_frames(self)
        &&& post.queue() == self.queue()
        &&& post.stop_requested() == self.stop_requested()
    }

    /// Drops the oldest frame, and counts it as dropped if it was never
    /// consumed. Fails where there is no frame.
    fn drop_oldest_frame(&mut self) -> (done: Result<(), VideoEngineError>)
        ensures
            old(self).frames().len() == 0 <==> done is Err,
            done matches Err(e) ==> e is BufferOverflow && old(self).unchanged(final(self)),
            done is Ok ==> {
                &&& final(self).same_settings(old(self))
                &&& final(self).queue() == old(self).queue()
                &&& final(self).stop_requested() == old(self).stop_requested()
                &&& final(self).frames() == old(self).frames().remove(0)
                &&& final(self).next_index() == old(self).next_index()
                &&& final(self).total_processed() == old(self).total_processed()
                &&& final(self).last_timestamp() == old(self).last_timestamp()
                &&& final(self).dropped() == if !old(self).frames()[0].is_consumed {
                    bump(old(self).dropped())
                } else {
                    old(self).dropped()
                }
            },
    {
        if self.frames.len() == 0 {
            return Err(buffer_overflow("No frames to drop"));
        }
        let unconsumed = !self.frames[0].is_consumed;
        let _ = self.frames.pop_front();
        proof {
            assert(self.frames() =~= old(self).frames().remove(0));
        }
        if unconsumed && self.dropped_frames < usize::MAX {
            self.dropped_frames = self.dropped_frames + 1;
        }
        Ok(())
    }

    /// Adds a frame.
    fn push_frame(&mut self, frame: DecodedFrame, now: u64, predecoded: bool) -> (done: Result<
        (),
        VideoEngineError,
    >)
        requires
            old(self).wf(),
        ensures
            final(self).wf(),
            old(self).max_frames() == 0 <==> done is Err,
            done matches Err(e) ==> e is BufferOverflow && old(self).unchanged(final(self)),
            done is Ok ==> old(self).frame_added(final(self), frame, now, predecoded),
    {
        if self.frames.len() >= self.max_frames {
            match self.drop_oldest_frame() {
                Err(e) => {
                    return Err(e);
                },
                Ok(()) => {},
            }
        }
        let timestamp = frame.timestamp;
        let buffered = BufferedFrame {
            frame,
            buffer_index: self.current_frame_index,
            added_timestamp: now,
            is_consumed: false,
            is_predecoded: predecoded,
        };
        self.frames.push_back(buffered);
        self.current_frame_index = if self.current_frame_index + 1 < self.max_frames {
            self.current_frame_index + 1
        } else {
            0
        };
        if self.total_frames_processed < usize::MAX {
            self.total_frames_processed = self.total_frames_processed + 1;
        }
        self.last_frame_timestamp = timestamp;
        proof {
            let m = old(self).max_frames() as int;
            let i = old(self).next_index() as int;
            if i + 1 < m {
                assert((i + 1) % m == i + 1) by (nonlinear_arith)
                    requires
                        0 <= i + 1 < m,
                ;
            } else {
                assert((i + 1) % m == 0) by (nonlinear_arith)
                    requires
                        i + 1 == m,
                        m > 0,
                ;
            }
        }
        Ok(())
    }

    /// Adds a frame that playback asked for, at time `now`. Fails, and
    /// changes nothing, where the buffer has no capacity.
    pub fn add_frame_at(&mut self, frame: DecodedFrame, now: u64) -> (done: Result<
        (),
        VideoEngineError,
    >)
        requires
            old(self).wf(),
        ensures
            final(self).wf(),
            final(self).frames().len() <= final(self).max_frames(),
            old(self).max_frames() == 0 <==> done is Err,
            done matches Err(e) ==> e is BufferOverflow && old(self).unchanged(final(self)),
            done is Ok ==> old(self).frame_added(final(self), frame, now, false),
    {
        self.push_frame(frame, now, false)
    }

    /// Adds a frame that playback asked for, at the time that the clock
    /// shows.
    pub fn add_frame(&mut self, frame: DecodedFrame) -> (done: Result<(), VideoEngineError>)
        requires
            old(self).wf(),
        ensures
            final(self).wf(),
            final(self).frames().len() <= final(self).max_frames(),
            old(self).max_frames() == 0 <==> done is Err,
            done matches Err(e) ==> e is BufferOverflow && old(self).unchanged(final(self)),
            done is Ok ==> exists|now: u64| #[trigger]
                old(self).frame_added(final(self), frame, now, false),
    {
        let now = current_timestamp_ms();
        let done = self.push_frame(frame, now, false);
        proof {
            if done is Ok {
                assert(old(self).frame_added(final(self), frame, now, false));
            }
        }
        done
    }

    /// Adds a frame that was decoded ahead of playback, at time `now`.
    pub fn add_predecoded_frame_at(&mut self, frame: DecodedFrame, now: u64) -> (done: Result<
        (),
        VideoEngineError,
    >)
        requires
            old(self).wf(),
        ensures
            final(self).wf(),
            final(self).frames().len() <= final(self).max_frames(),
            old(self).max_frames() == 0 <==> done is Err,
            done matches Err(e) ==> e is BufferOverflow && old(self).unchanged(final(self)),
            done is Ok ==> old(self).frame_added(final(self), frame, now, true),
    {
        self.push_frame(frame, now, true)
    }

    /// Adds a frame that was decoded ahead of playback, at the time that
    /// the clock shows.
    pub fn add_predecoded_frame(&mut self, frame: DecodedFrame) -> (done: Result<
        (),
        VideoEngineError,
    >)
        requires
            old(self).wf(),
        ensures
            final(self).wf(),
            final(self).frames().len() <= final(self).max_frames(),
            old(self).max_frames() == 0 <==> done is Err,
            done matches Err(e) ==> e is BufferOverflow && old(self).unchanged(final(self)),
            done is Ok ==> exists|now: u64| #[trigger]
                old(self).frame_added(final(self), frame, now, true),
    {
        let now = current_timestamp_ms();
        let done = self.push_frame(frame, now, true);
        proof {
            if done is Ok {
                assert(old(self).frame_added(final(self), frame, now, true));
            }
        }
        done
    }

    /// What `get_next_frame_at` does to a buffer and what it returns. The
    /// oldest frame that was not consumed is marked and its payload handed
    /// out. Of the consumed frames in front of it, those that are stale
    /// leave the buffer and the others stay.
    pub open spec fn frame_taken(&self, post: &FrameBuffer, now: u64, data: Option<Seq<u8>>) -> bool {
        let frames = self.frames();
        let at = first_unconsumed(frames, 0);
        &&& post.same_settings(self)
        &&& post.queue() == self.queue()
        &&& post.stop_requested() == self.stop_requested()
        &&& post.next_index() == self.next_index()
        &&& post.total_processed() == self.total_processed()
        &&& post.dropped() == self.dropped()
        &&& post.last_timestamp() == self.last_timestamp()
        &&& if at < frames.len() {
            &&& data == Some(frames[at].frame.data@)
            &&& post.frames() == retained(frames.subrange(0, at), now).push(consumed(frames[at]))
                + frames.subrange(at + 1, frames.len() as int)
        } else {
            &&& data is None
            &&& post.frames() == retained(frames, now)
        }
    }

    /// Hands out the payload of the oldest frame that was not consumed, and
    /// marks that frame as consumed. Consumed frames in front of it leave
    /// the buffer where they are stale at `now`, and stay where they are
    /// not.
    pub fn get_next_frame_at(&mut self, now: u64) -> (data: Option<Vec<u8>>)
        requires
            old(self).wf(),
        ensures
            final(self).wf(),
            old(self).frame_taken(
                final(self),
                now,
                payload_of(data),
            ),
    {
        let ghost before = self.frames();
        let ghost mut seen: int = 0;
        let mut i: usize = 0;
        proof {
            assert(before.subrange(0, 0) =~= Seq::<BufferedFrame>::empty());
            assert(Seq::<BufferedFrame>::empty() + before.subrange(0, before.len() as int)
                =~= before);
            lemma_first_unconsumed(before, 0);
        }
        while i < self.frames.len()
            invariant
                before == old(self).frames(),
                0 <= seen <= before.len(),
                i <= self.frames.len(),
                i == retained(before.subrange(0, seen), now).len(),
                self.frames() == retained(before.subrange(0, seen), now) + before.subrange(
                    seen,
                    before.len() as int,
                ),
                first_unconsumed(before, seen) == first_unconsumed(before, 0),
                self.same_settings(old(self)),
                self.queue() == old(self).queue(),
                self.stop_requested() == old(self).stop_requested(),
                self.next_index() == old(self).next_index(),
                self.total_processed() == old(self).total_processed(),
                self.dropped() == old(self).dropped(),
                self.last_timestamp() == old(self).last_timestamp(),
                self.wf(),
            decreases before.len() - seen,
        {
            let ghost held = self.frames();
            proof {
                assert(before.subrange(0, seen + 1).drop_last() =~= before.subrange(0, seen));
                assert(held[i as int] == before[seen]);
                lemma_first_unconsumed(before, seen);
            }
            if !self.frames[i].is_consumed {
                let data = self.frames[i].frame.data.clone();
                match self.frames.remove(i) {
                    Some(taken) => {
                        let mut marked = taken;
                        marked.is_consumed = true;
                        self.frames.insert(i, marked);
                    },
                    None => {},
                }
                proof {
                    assert(self.frames() =~= retained(before.subrange(0, seen), now).push(
                        consumed(before[seen]),
                    ) + before.subrange(seen + 1, before.len() as int));
                }
                return Some(data);
            }
            let stale = now > self.frames[i].added_timestamp && now
                - self.frames[i].added_timestamp > STALE_AFTER_MS;
            if stale {
                let _ = self.frames.remove(i);
            } else {
                i = i + 1;
            }
            proof {
                assert(self.frames() =~= retained(before.subrange(0, seen + 1), now)
                    + before.subrange(seen + 1, before.len() as int));
                seen = seen + 1;
            }
        }
        proof {
            assert(seen == before.len());
            assert(before.subrange(0, seen) =~= before);
            assert(self.frames() =~= retained(before, now));
        }
        None
    }

    /// Hands out the payload of the oldest frame that was not consumed, as
    /// `get_next_frame_at` does at the time that the clock shows.
    pub fn get_next_frame(&mut self) -> (data: Option<Vec<u8>>)
        requires
            old(self).wf(),
        ensures
            final(self).wf(),
            exists|now: u64| #[trigger]
                old(self).frame_taken(
                    final(self),
                    now,
                    payload_of(data),
                ),
    {
        let now = current_timestamp_ms();
        let data = self.get_next_frame_at(now);
        proof {
            assert(old(self).frame_taken(
                final(self),
                now,
                payload_of(data),
            ));
        }
        data
    }

    /// The payload of the frame that arrived last. Nothing is marked.
    pub fn get_current_frame(&self) -> (data: Option<Vec<u8>>)
        ensures
            self.frames().len() == 0 ==> data is None,
            self.frames().len() > 0 ==> (data matches Some(bytes) && bytes@
                == self.frames().last().frame.data@),
    {
        if self.frames.len() == 0 {
            None
        } else {
            Some(self.frames[self.frames.len() - 1].frame.data.clone())
        }
    }

    /// The oldest frame with the buffer index.
    pub fn get_frame_by_index(&self, index: usize) -> (frame: Option<&DecodedFrame>)
        ensures
            ({
                let at = first_with_index(self.frames(), index, 0);
                if 0 <= at < self.frames().len() {
                    frame == Some(&self.frames()[at].frame)
                } else {
                    frame is None
                }
            }),
    {
        let mut i: usize = 0;
        while i < self.frames.len()
            invariant
                i <= self.frames.len(),
                first_with_index(self.frames(), index, i as int) == first_with_index(
                    self.frames(),
                    index,
                    0,
                ),
            decreases self.frames.len() - i,
        {
            if self.frames[i].buffer_index == index {
                return Some(&self.frames[i].frame);
            }
            i = i + 1;
        }
        None
    }

    /// The number of buffered frames.
    pub fn get_frame_count(&self) -> (n: usize)
        ensures
            n == self.frames().len(),
    {
        self.frames.len()
    }

    /// The number of buffered frames that were decoded ahead of playback.
    pub fn get_predecoded_frame_count(&self) -> (n: usize)
        ensures
            n == count_predecoded(self.frames()),
    {
        let mut n: usize = 0;
        let mut i: usize = 0;
        proof {
            assert(self.frames().subrange(0, 0) =~= Seq::<BufferedFrame>::empty());
        }
        while i < self.frames.len()
            invariant
                i <= self.frames.len(),
                n == count_predecoded(self.frames().subrange(0, i as int)),
                n <= i,
            decreases self.frames.len() - i,
        {
            proof {
                assert(self.frames().subrange(0, i + 1).drop_last() =~= self.frames().subrange(
                    0,
                    i as int,
                ));
            }
            if self.frames[i].is_predecoded {
                n = n + 1;
            }
            i = i + 1;
        }
        proof {
            assert(self.frames().subrange(0, i as int) =~= self.frames());
        }
        n
    }

    /// Whether enough pre-decoded frames are buffered.
    pub fn has_sufficient_predecoded_frames(&self) -> (enough: bool)
        ensures
            enough == (count_predecoded(self.frames()) >= self.min_predecoded()),
    {
        self.get_predecoded_frame_count() >= self.min_predecoded_frames
    }

    /// Buffered frames per thousand of the capacity.
    pub fn get_utilization(&self) -> (u: u64)
        ensures
            u == share(self.frames().len() as int, self.max_frames() as int),
    {
        if self.max_frames == 0 {
            0
        } else {
            let q: u128 = (self.frames.len() as u128) * 1000 / (self.max_frames as u128);
            if q <= u64::MAX as u128 {
                q as u64
            } else {
                u64::MAX
            }
        }
    }

    /// The number of frames that were added.
    pub fn get_total_frames_processed(&self) -> (n: usize)
        ensures
            n == self.total_processed(),
    {
        self.total_frames_processed
    }

    /// The number of frames that were dropped before they were consumed.
    pub fn get_dropped_frames(&self) -> (n: usize)
        ensures
            n == self.dropped(),
    {
        self.dropped_frames
    }

    /// Empties buffer and queue, and sets the counters back to zero.
    pub fn clear(&mut self)
        ensures
            final(self).wf(),
            final(self).same_settings(old(self)),
            final(self).stop_requested() == old(self).stop_requested(),
            final(self).is_fresh(),
    {
        self.frames.clear();
        self.current_frame_index = 0;
        self.total_frames_processed = 0;
        self.dropped_frames = 0;
        self.last_frame_timestamp = 0;
        self.predecode_queue.clear();
    }

    /// Whether playback can start: at least half a second of frames at the
    /// target rate is buffered, and enough of the buffered frames were
    /// decoded ahead of playback.
    pub fn is_ready_for_playback(&self) -> (ready: bool)
        ensures
            ready == (self.frames().len() >= self.target_fps() / 2 && count_predecoded(
                self.frames(),
            ) >= self.min_predecoded()),
            count_predecoded(self.frames()) < self.min_predecoded() ==> !ready,
    {
        self.frames.len() as u64 >= (self.target_fps / 2) as u64
            && self.has_sufficient_predecoded_frames()
    }

    /// Frame rate figures of the buffered window.
    pub fn get_frame_rate_stats(&self) -> (stats: FrameRateStats)
        ensures
            stats == (FrameRateStats {
                current_fps: window_fps(self.frames()),
                target_fps: self.target_fps(),
                efficiency: if self.target_fps() > 0 {
                    (window_fps(self.frames()) / (self.target_fps() as u64)) as u64
                } else {
                    0
                },
                total_frames: self.total_processed(),
                dropped_frames: self.dropped(),
                predecoded_frames: count_predecoded(self.frames()) as usize,
            }),
    {
        proof {
            lemma_count_bound(self.frames());
        }
        let n = self.frames.len();
        let current_fps: u64 = if n > 1 && self.frames[n - 1].frame.timestamp
            > self.frames[0].frame.timestamp {
            let span: u64 = self.frames[n - 1].frame.timestamp - self.frames[0].frame.timestamp;
            let rate: u128 = (n as u128) * 1000000 / (span as u128);
            if rate <= u64::MAX as u128 {
                rate as u64
            } else {
                u64::MAX
            }
        } else {
            0
        };
        FrameRateStats {
            current_fps,
            target_fps: self.target_fps,
            efficiency: if self.target_fps > 0 {
                current_fps / (self.target_fps as u64)
            } else {
                0
            },
            total_frames: self.total_frames_processed,
            dropped_frames: self.dropped_frames,
            predecoded_frames: self.get_predecoded_frame_count(),
        }
    }

    /// Removes the frames that were consumed more than `STALE_AFTER_MS`
    /// before `now`.
    pub fn optimize_memory_at(&mut self, now: u64)
        requires
            old(self).wf(),
        ensures
            final(self).wf(),
            final(self).same_settings(old(self)),
            final(self).queue() == old(self).queue(),
            final(self).stop_requested() == old(self).stop_requested(),
            final(self).next_index() == old(self).next_index(),
            final(self).total_processed() == old(self).total_processed(),
            final(self).dropped() == old(self).dropped(),
            final(self).last_timestamp() == old(self).last_timestamp(),
            final(self).frames() == retained(old(self).frames(), now),
    {
        let ghost before = self.frames();
        let ghost mut seen: int = 0;
        let mut i: usize = 0;
        proof {
            assert(before.subrange(0, 0) =~= Seq::<BufferedFrame>::empty());
            assert(Seq::<BufferedFrame>::empty() + before.subrange(0, before.len() as int)
                =~= before);
        }
        while i < self.frames.len()
            invariant
                before == old(self).frames(),
                0 <= seen <= before.len(),
                i <= self.frames.len(),
                i == retained(before.subrange(0, seen), now).len(),
                self.frames() == retained(before.subrange(0, seen), now) + before.subrange(
                    seen,
                    before.len() as int,
                ),
                self.same_settings(old(self)),
                self.queue() == old(self).queue(),
                self.stop_requested() == old(self).stop_requested(),
                self.next_index() == old(self).next_index(),
                self.total_processed() == old(self).total_processed(),
                self.dropped() == old(self).dropped(),
                self.last_timestamp() == old(self).last_timestamp(),
                self.wf(),
            decreases before.len() - seen,
        {
            proof {
                assert(before.subrange(0, seen + 1).drop_last() =~= before.subrange(0, seen));
                assert(self.frames()[i as int] == before[seen]);
            }
            let stale = self.frames[i].is_consumed && now > self.frames[i].added_timestamp && now
                - self.frames[i].added_timestamp > STALE_AFTER_MS;
            if stale {
                let _ = self.frames.remove(i);
                proof {
                    assert(self.frames() =~= retained(before.subrange(0, seen + 1), now)
                        + before.subrange(seen + 1, before.len() as int));
                }
            } else {
                i = i + 1;
                proof {
                    assert(self.frames() =~= retained(before.subrange(0, seen + 1), now)
                        + before.subrange(seen + 1, before.len() as int));
                }
            }
            proof {
                seen = seen + 1;
            }
        }
        proof {
            assert(seen == before.len());
            assert(before.subrange(0, seen) =~= before);
            assert(self.frames() =~= retained(before, now));
        }
    }

    /// Removes the frames that were consumed more than `STALE_AFTER_MS`
    /// before the time that the clock shows.
    pub fn optimize_memory(&mut self)
        requires
            old(self).wf(),
        ensures
            final(self).wf(),
            final(self).same_settings(old(self)),
            final(self).queue() == old(self).queue(),
            final(self).stop_requested() == old(self).stop_requested(),
            final(self).next_index() == old(self).next_index(),
            final(self).total_processed() == old(self).total_processed(),
            final(self).dropped() == old(self).dropped(),
            final(self).last_timestamp() == old(self).last_timestamp(),
            exists|now: u64| final(self).frames() == #[trigger] retained(old(self).frames(), now),
    {
        let now = current_timestamp_ms();
        self.optimize_memory_at(now);
        proof {
            assert(final(self).frames() == retained(old(self).frames(), now));
        }
    }

    /// The sum of the buffered payloads' lengths, stopping at the largest
    /// `usize`.
    pub fn get_memory_usage(&self) -> (bytes: usize)
        ensures
            bytes == if payload_bytes(self.frames()) <= usize::MAX {
                payload_bytes(self.frames())
            } else {
                usize::MAX as nat
            },
    {
        let mut bytes: usize = 0;
        let mut i: usize = 0;
        proof {
            assert(self.frames().subrange(0, 0) =~= Seq::<BufferedFrame>::empty());
        }
        while i < self.frames.len()
            invariant
                i <= self.frames.len(),
                bytes == if payload_bytes(self.frames().subrange(0, i as int)) <= usize::MAX {
                    payload_bytes(self.frames().subrange(0, i as int))
                } else {
                    usize::MAX as nat
                },
            decreases self.frames.len() - i,
        {
            proof {
                assert(self.frames().subrange(0, i + 1).drop_last() =~= self.frames().subrange(
                    0,
                    i as int,
                ));
            }
            let len = self.frames[i].frame.data.len();
            bytes = if bytes <= usize::MAX - len {
                bytes + len
            } else {
                usize::MAX
            };
            i = i + 1;
        }
        proof {
            assert(self.frames().subrange(0, i as int) =~= self.frames());
        }
        bytes
    }

    /// The buffer's figures.
    pub fn get_stats(&self) -> (stats: BufferStats)
        ensures
            stats.frame_count == self.frames().len(),
            stats.max_frames == self.max_frames(),
            stats.utilization == share(self.frames().len() as int, self.max_frames() as int),
            stats.memory_usage == if payload_bytes(self.frames()) <= usize::MAX {
                payload_bytes(self.frames())
            } else {
                usize::MAX as nat
            },
            stats.total_processed == self.total_processed(),
            stats.dropped_frames == self.dropped(),
            stats.is_ready == (self.frames().len() >= self.target_fps() / 2 && count_predecoded(
                self.frames(),
            ) >= self.min_predecoded()),
            stats.predecoded_frames == count_predecoded(self.frames()),
            stats.min_predecoded_frames == self.min_predecoded(),
    {
        BufferStats {
            frame_count: self.frames.len(),
            max_frames: self.max_frames,
            utilization: self.get_utilization(),
            memory_usage: self.get_memory_usage(),
            total_processed: self.total_frames_processed,
            dropped_frames: self.dropped_frames,
            is_ready: self.is_ready_for_playback(),
            predecoded_frames: self.get_predecoded_frame_count(),
            min_predecoded_frames: self.min_predecoded_frames,
        }
    }
}

/// The place of a priority in the order of service.
pub fn priority_rank(p: PredecodePriority) -> (r: u8)
    ensures
        r == rank(p),
{
    match p {
        PredecodePriority::High => 0,
        PredecodePriority::Medium => 1,
        PredecodePriority::Low => 2,
    }
}

/// How long the worker pauses after a step, in milliseconds.
pub fn backoff_ms(step: &WorkerStep) -> (ms: u64)
    ensures
        ms == match *step {
            WorkerStep::Stop => 0,
            WorkerStep::Decode(_) => BUSY_BACKOFF_MS,
            WorkerStep::Idle => IDLE_BACKOFF_MS,
        },
{
    match step {
        WorkerStep::Stop => 0,
        WorkerStep::Decode(_) => BUSY_BACKOFF_MS,
        WorkerStep::Idle => IDLE_BACKOFF_MS,
    }
}

/// Paints the test pattern of a frame.
pub fn create_test_frame_data(frame_index: usize, timestamp: u64) -> (data: Vec<u8>)
    ensures
        data@ == spec_test_frame_data(frame_index, timestamp),
{
    let blue: u8 = (((frame_index as u128) * 50 + ((timestamp / 1000) as u128)) % 255) as u8;
    let mut data: Vec<u8> = Vec::new();
    let mut y: usize = 0;
    while y < PATTERN_HEIGHT
        invariant
            y <= PATTERN_HEIGHT,
            blue == ((frame_index * 50 + timestamp / 1000) % 255) as u8,
            data@.len() == y * 1080 * 3,
            forall|k: int|
                0 <= k < data@.len() ==> #[trigger] data@[k] == pattern_byte(
                    k,
                    frame_index,
                    timestamp,
                ),
        decreases PATTERN_HEIGHT - y,
    {
        let green: u8 = (y * 255 / PATTERN_HEIGHT) as u8;
        let mut x: usize = 0;
        while x < PATTERN_WIDTH
            invariant
                y < PATTERN_HEIGHT,
                x <= PATTERN_WIDTH,
                green == (y * 255 / 1920) as u8,
                blue == ((frame_index * 50 + timestamp / 1000) % 255) as u8,
                data@.len() == (y * 1080 + x) * 3,
                forall|k: int|
                    0 <= k < data@.len() ==> #[trigger] data@[k] == pattern_byte(
                        k,
                        frame_index,
                        timestamp,
                    ),
            decreases PATTERN_WIDTH - x,
        {
            let red: u8 = (x * 255 / PATTERN_WIDTH) as u8;
            let ghost before = data@;
            proof {
                lemma_pattern_pixel(x as int, y as int, frame_index, timestamp);
            }
            data.push(red);
            data.push(green);
            data.push(blue);
            proof {
                let base = before.len() as int;
                assert(data@ == before.push(red).push(green).push(blue));
                assert forall|k: int| 0 <= k < data@.len() implies #[trigger] data@[k]
                    == pattern_byte(k, frame_index, timestamp) by {
                    if k < base {
                        assert(data@[k] == before[k]);
                    } else if k == base {
                    } else if k == base + 1 {
                    } else {
                        assert(k == base + 2);
                    }
                }
            }
            x = x + 1;
        }
        y = y + 1;
    }
    proof {
        assert(data@ =~= spec_test_frame_data(frame_index, timestamp));
    }
    data
}

/// Stands in for a decoder: yields test-pattern frames for a task, the
/// first of them a key frame.
pub fn simulate_predecode(task: &PredecodeTask) -> (frames: Vec<DecodedFrame>)
    ensures
        frames@.len() == simulated_frame_count(task.chunk_data@.len() as int),
        forall|i: int|
            0 <= i < frames@.len() ==> {
                let f = #[trigger] frames@[i];
                &&& f.data@ == spec_test_frame_data(i as usize, task.timestamp)
                &&& f.width == 1080
                &&& f.height == 1920
                &&& f.timestamp == simulated_timestamp(task.timestamp, i)
                &&& f.is_key_frame == (i == 0)
                &&& f.format == OutputFormat::RGB24
            },
{
    let full = task.chunk_data.len() / 1024;
    let count: usize = if full < SIMULATED_FRAMES_MAX {
        full
    } else {
        SIMULATED_FRAMES_MAX
    };
    let mut frames: Vec<DecodedFrame> = Vec::new();
    let mut i: usize = 0;
    while i < count
        invariant
            i <= count <= SIMULATED_FRAMES_MAX,
            frames@.len() == i,
            forall|j: int|
                0 <= j < i ==> {
                    let f = #[trigger] frames@[j];
                    &&& f.data@ == spec_test_frame_data(j as usize, task.timestamp)
                    &&& f.width == 1080
                    &&& f.height == 1920
                    &&& f.timestamp == simulated_timestamp(task.timestamp, j)
                    &&& f.is_key_frame == (j == 0)
                    &&& f.format == OutputFormat::RGB24
                },
        decreases count - i,
    {
        let offset: u64 = (i as u64) * SIMULATED_FRAME_SPACING;
        let timestamp: u64 = if task.timestamp <= u64::MAX - offset {
            task.timestamp + offset
        } else {
            u64::MAX
        };
        frames.push(
            DecodedFrame {
                data: create_test_frame_data(i, task.timestamp),
                width: 1080,
                height: 1920,
                timestamp,
                is_key_frame: i == 0,
                format: OutputFormat::RGB24,
            },
        );
        i = i + 1;
    }
    frames
}

/// The position of the first less urgent task lies between `from` and the
/// end; nothing before it is less urgent than `priority`, and what stands at
/// it is.
pub proof fn lemma_first_behind(queue: Seq<PredecodeTask>, priority: PredecodePriority, from: int)
    requires
        0 <= from <= queue.len(),
    ensures
        from <= first_behind(queue, priority, from) <= queue.len(),
        forall|i: int|
            from <= i < first_behind(queue, priority, from) ==> rank(
                (#[trigger] queue[i]).priority,
            ) <= rank(priority),
        first_behind(queue, priority, from) < queue.len() ==> rank(
            queue[first_behind(queue, priority, from)].priority,
        ) > rank(priority),
    decreases queue.len() - from,
{
    if from < queue.len() && rank(queue[from].priority) <= rank(priority) {
        lemma_first_behind(queue, priority, from + 1);
    }
}

/// The number of pre-decoded frames is at most the number of frames.
pub proof fn lemma_count_bound(frames: Seq<BufferedFrame>)
    ensures
        count_predecoded(frames) <= frames.len(),
    decreases frames.len(),
{
    if frames.len() > 0 {
        lemma_count_bound(frames.drop_last());
    }
}

/// The position of the first unconsumed frame lies between `from` and the
/// end; every frame before it was consumed, and the one at it was not.
pub proof fn lemma_first_unconsumed(frames: Seq<BufferedFrame>, from: int)
    requires
        0 <= from <= frames.len(),
    ensures
        from <= first_unconsumed(frames, from) <= frames.len(),
        forall|i: int| from <= i < first_unconsumed(frames, from) ==> (#[trigger] frames[i]).is_consumed,
        first_unconsumed(frames, from) < frames.len() ==> !frames[first_unconsumed(
            frames,
            from,
        )].is_consumed,
    decreases frames.len() - from,
{
    if from < frames.len() && frames[from].is_consumed {
        lemma_first_unconsumed(frames, from + 1);
    }
}

/// Nothing that is retained is stale, and no more is retained than there
/// was.
pub proof fn lemma_retained(frames: Seq<BufferedFrame>, now: u64)
    ensures
        retained(frames, now).len() <= frames.len(),
        forall|i: int|
            0 <= i < retained(frames, now).len() ==> !is_stale(
                #[trigger] retained(frames, now)[i],
                now,
            ),
    decreases frames.len(),
{
    if frames.len() > 0 {
        lemma_retained(frames.drop_last(), now);
    }
}

/// The three bytes of the pixel in column `x` of row `y` of the test
/// pattern.
pub proof fn lemma_pattern_pixel(x: int, y: int, frame_index: usize, timestamp: u64)
    requires
        0 <= x < PATTERN_WIDTH,
        0 <= y < PATTERN_HEIGHT,
    ensures
        pattern_byte((y * 1080 + x) * 3, frame_index, timestamp) == (x * 255 / 1080) as u8,
        pattern_byte((y * 1080 + x) * 3 + 1, frame_index, timestamp) == (y * 255 / 1920) as u8,
        pattern_byte((y * 1080 + x) * 3 + 2, frame_index, timestamp) == ((frame_index * 50
            + timestamp / 1000) % 255) as u8,
{
    let pixel = y * 1080 + x;
    let base = pixel * 3;
    assert(base / 3 == pixel && base % 3 == 0);
    assert((base + 1) / 3 == pixel && (base + 1) % 3 == 1);
    assert((base + 2) / 3 == pixel && (base + 2) % 3 == 2);
    assert(pixel % 1080 == x && pixel / 1080 == y);
}

/// A task that enters a sorted queue at its entry point leaves the queue
/// sorted, stands behind every task that is as urgent or more urgent, and
/// in front of every task that is less urgent: drains serve high before
/// medium before low, and each priority in order of arrival.
pub proof fn lemma_entry_keeps_sorted(queue: Seq<PredecodeTask>, task: PredecodeTask)
    requires
        queue_sorted(queue),
    ensures
        0 <= entry_point(queue, task.priority) <= queue.len(),
        queue_sorted(queue.insert(entry_point(queue, task.priority), task)),
        forall|i: int|
            0 <= i < entry_point(queue, task.priority) ==> rank((#[trigger] queue[i]).priority)
                <= rank(task.priority),
        forall|i: int|
            entry_point(queue, task.priority) <= i < queue.len() ==> rank(
                (#[trigger] queue[i]).priority,
            ) > rank(task.priority),
{
    let at = entry_point(queue, task.priority);
    lemma_first_behind(queue, task.priority, 0);
    assert forall|i: int| at <= i < queue.len() implies rank((#[trigger] queue[i]).priority)
        > rank(task.priority) by {
        if at < i {
            assert(rank(queue[at].priority) <= rank(queue[i].priority));
        }
    }
    let after = queue.insert(at, task);
    assert forall|i: int, j: int| 0 <= i < j < after.len() implies rank(
        (#[trigger] after[i]).priority,
    ) <= rank((#[trigger] after[j]).priority) by {
        let oi = if i < at {
            i
        } else {
            i - 1
        };
        let oj = if j < at {
            j
        } else {
            j - 1
        };
        if i == at {
            assert(after[j] == queue[oj]);
        } else if j == at {
            assert(after[i] == queue[oi]);
        } else {
            assert(after[i] == queue[oi]);
            assert(after[j] == queue[oj]);
        }
    }
}

/// An addition never takes a buffer beyond its capacity, and it counts one
/// dropped frame exactly where it pushed out a frame that was never
/// consumed.
pub proof fn lemma_add_frame_bounded(
    pre: FrameBuffer,
    post: FrameBuffer,
    frame: DecodedFrame,
    now: u64,
    predecoded: bool,
)
    requires
        pre.wf(),
        pre.max_frames() > 0,
        pre.frame_added(&post, frame, now, predecoded),
    ensures
        post.frames().len() <= post.max_frames(),
        post.frames().len() == if pre.frames().len() < pre.max_frames() {
            pre.frames().len() + 1
        } else {
            pre.frames().len()
        },
        post.dropped() == pre.dropped() || post.dropped() == pre.dropped() + 1,
        post.dropped() != pre.dropped() ==> pre.frames().len() == pre.max_frames()
            && !pre.frames()[0].is_consumed,
        pre.frames().len() == pre.max_frames() && !pre.frames()[0].is_consumed && pre.dropped()
            < usize::MAX ==> post.dropped() == pre.dropped() + 1,
{
}

} // verus!
