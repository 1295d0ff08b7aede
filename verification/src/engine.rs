//! The top-level orchestrator: lifecycle, bounded input/output queues and
//! aggregate metrics around one frame processor.
//!
//! The worker pool itself (task spawning, suspension on full or empty
//! queues) is asynchronous plumbing around this core: workers take frames
//! with `take_frame`, hand results back with `push_result`, and record
//! per-frame failures with `record_processing_error`; a failed frame never
//! terminates a worker.

use vstd::prelude::*;

use crate::analyzer::Analysis;
use crate::detector::{Detection, RawDetection};
use crate::errors::CoreError;
use crate::processor::Frame;
use crate::queue::{BoundedQueue, PushOutcome};
use crate::UNIT_SCALE;

verus! {

/// `detection_threshold` is a fraction of `UNIT_SCALE`.
#[derive(Debug, Clone)]
pub struct EngineConfig {
    pub max_batch_size: usize,
    pub processing_threads: usize,
    pub enable_gpu: bool,
    pub model_precision: String,
    pub detection_threshold: u32,
    pub enable_analytics: bool,
}

impl Default for EngineConfig {
    /// The stock configuration: batches of 32, four workers, GPU and
    /// analytics enabled, half-confidence detection threshold.
    fn default() -> (r: Self)
        ensures
            r.max_batch_size == 32,
            r.processing_threads == 4,
            r.enable_gpu,
            r.model_precision@ == "fp16"@,
            r.detection_threshold == 500,
            r.enable_analytics,
    {
        EngineConfig {
            max_batch_size: 32,
            processing_threads: 4,
            enable_gpu: true,
            model_precision: "fp16".to_owned(),
            detection_threshold: 500,
            enable_analytics: true,
        }
    }
}

/// One result of the numeric inference backend, kept alongside the
/// interpreted detections when callers want the raw rows.
#[derive(Debug)]
pub struct InferenceResult {
    pub model_name: String,
    pub rows: Vec<RawDetection>,
    pub timestamp: i64,
}

/// One processed frame's outcome, delivered at most once through the
/// result queue.
#[derive(Debug)]
pub struct ProcessingResult {
    pub frame_id: u64,
    pub detections: Vec<Detection>,
    pub analysis: Option<Analysis>,
    pub inference: Option<InferenceResult>,
    pub timestamp: i64,
}

/// The capability the engine drives: turn one frame into one result.
pub trait FrameProcessor {
    fn process_frame(&mut self, frame: Frame) -> Result<ProcessingResult, CoreError>;
}

/// Aggregate counters of one engine. `uptime` is in seconds.
#[derive(Debug, Clone, Copy, PartialEq, Eq, Structural)]
pub struct EngineMetrics {
    pub frames_processed: u64,
    pub error_count: u64,
    pub uptime: i64,
    pub is_running: bool,
}

pub open spec fn engine_config_valid(c: EngineConfig) -> bool {
    &&& c.max_batch_size >= 1
    &&& c.processing_threads >= 1
    &&& c.detection_threshold <= UNIT_SCALE
}

/// Lifecycle and queue core of the engine: a bounded input queue of
/// frames, a bounded output queue of results, and aggregate counters.
pub struct Engine {
    pub config: EngineConfig,
    pub is_running: bool,
    pub frames_processed: u64,
    pub error_count: u64,
    pub last_error: Option<String>,
    pub start_time: i64,
    pub input_queue: BoundedQueue<Frame>,
    pub output_queue: BoundedQueue<ProcessingResult>,
}

impl Engine {
    pub open spec fn wf(&self) -> bool {
        &&& self.input_queue.wf()
        &&& self.output_queue.wf()
        &&& self.input_queue.capacity == self.config.max_batch_size
        &&& self.output_queue.capacity == self.config.max_batch_size
        &&& engine_config_valid(self.config)
    }

    /// Build an engine around bounded queues of capacity
    /// `max_batch_size`; an invalid configuration fails construction.
    pub fn new_at(config: EngineConfig, now: i64) -> (r: Result<Engine, CoreError>)
        ensures
            (r is Ok) == engine_config_valid(config),
            r is Err ==> r->Err_0 is Config,
            r is Ok ==> {
                let e = r->Ok_0;
                &&& e.wf()
                &&& e.config == config
                &&& !e.is_running
                &&& e.frames_processed == 0
                &&& e.error_count == 0
                &&& e.last_error is None
                &&& e.start_time == now
                &&& e.input_queue.items@.len() == 0
                &&& !e.input_queue.closed
                &&& e.output_queue.items@.len() == 0
                &&& !e.output_queue.closed
            },
    {
        if config.max_batch_size < 1 || config.processing_threads < 1 || config.detection_threshold
            > UNIT_SCALE {
            return Err(CoreError::Config("engine configuration is invalid".to_owned()));
        }
        let input_queue = BoundedQueue::new(config.max_batch_size);
        let output_queue = BoundedQueue::new(config.max_batch_size);
        Ok(
            Engine {
                config,
                is_running: false,
                frames_processed: 0,
                error_count: 0,
                last_error: None,
                start_time: now,
                input_queue,
                output_queue,
            },
        )
    }

    /// Start the engine: idempotent; when already running nothing
    /// changes, otherwise the running flag is set and the start time
    /// recorded. Spawning the worker tasks is the runtime wrapper's job.
    pub fn start_at(&mut self, now: i64)
        requires
            old(self).wf(),
        ensures
            final(self).wf(),
            old(self).is_running ==> *final(self) == *old(self),
            !old(self).is_running ==> *final(self) == (Engine {
                is_running: true,
                start_time: now,
                ..*old(self)
            }),
            final(self).is_running,
    {
        if self.is_running {
            return ;
        }
        self.is_running = true;
        self.start_time = now;
    }

    /// Stop the engine: idempotent; when not running nothing changes,
    /// otherwise the running flag is cleared and the input queue closed,
    /// so later `try_process_frame` calls fail with a queue-closed error.
    /// Frames already queued can still be drained by workers.
    pub fn stop(&mut self)
        requires
            old(self).wf(),
        ensures
            final(self).wf(),
            !old(self).is_running ==> *final(self) == *old(self),
            old(self).is_running ==> {
                &&& final(self).is_running == false
                &&& final(self).input_queue.closed
                &&& final(self).input_queue.items == old(self).input_queue.items
                &&& final(self).input_queue.capacity == old(self).input_queue.capacity
                &&& final(self).output_queue == old(self).output_queue
                &&& final(self).config == old(self).config
                &&& final(self).frames_processed == old(self).frames_processed
                &&& final(self).error_count == old(self).error_count
                &&& final(self).last_error == old(self).last_error
                &&& final(self).start_time == old(self).start_time
            },
            !final(self).is_running,
    {
        if !self.is_running {
            return ;
        }
        self.is_running = false;
        self.input_queue.close();
    }

    /// Offer one frame to the input queue without blocking. A full queue
    /// hands the frame back (`Full`), so an asynchronous caller suspends
    /// and retries; once the engine is stopped the queue is closed and
    /// the frame comes back with `Closed`, which callers surface as a
    /// queue-closed error.
    pub fn process_frame(&mut self, frame: Frame) -> (r: PushOutcome<Frame>)
        requires
            old(self).wf(),
        ensures
            final(self).wf(),
            final(self).config == old(self).config,
            final(self).is_running == old(self).is_running,
            final(self).output_queue == old(self).output_queue,
            final(self).frames_processed == old(self).frames_processed,
            final(self).error_count == old(self).error_count,
            final(self).last_error == old(self).last_error,
            final(self).start_time == old(self).start_time,
            final(self).input_queue.closed == old(self).input_queue.closed,
            final(self).input_queue.capacity == old(self).input_queue.capacity,
            old(self).input_queue.closed ==> (r matches PushOutcome::Closed(y) && y == frame)
                && final(self).input_queue == old(self).input_queue,
            !old(self).input_queue.closed && old(self).input_queue.items@.len() >= old(self).config.max_batch_size ==> (r matches PushOutcome::Full(y) && y == frame) && final(self).input_queue == old(self).input_queue,
            !old(self).input_queue.closed && old(self).input_queue.items@.len() < old(self).config.max_batch_size ==> r is Accepted && final(self).input_queue.items@ == old(self).input_queue.items@.push(frame),
    {
        self.input_queue.try_push(frame)
    }

    /// Worker side: take the oldest queued frame, if any.
    pub fn take_frame(&mut self) -> (r: Option<Frame>)
        requires
            old(self).wf(),
        ensures
            final(self).wf(),
            final(self).config == old(self).config,
            final(self).is_running == old(self).is_running,
            final(self).output_queue == old(self).output_queue,
            final(self).frames_processed == old(self).frames_processed,
            final(self).error_count == old(self).error_count,
            final(self).last_error == old(self).last_error,
            final(self).start_time == old(self).start_time,
            final(self).input_queue.closed == old(self).input_queue.closed,
            final(self).input_queue.capacity == old(self).input_queue.capacity,
            old(self).input_queue.items@.len() == 0 ==> r is None && final(self).input_queue == old(self).input_queue,
            old(self).input_queue.items@.len() > 0 ==> (r matches Some(f) && f == old(self).input_queue.items@[0]) && final(self).input_queue.items@ == old(self).input_queue.items@.drop_first(),
    {
        self.input_queue.try_pop()
    }

    /// Worker side: offer one result to the output queue without
    /// blocking; on acceptance the processed-frames counter advances
    /// (saturating).
    pub fn push_result(&mut self, result: ProcessingResult) -> (r: PushOutcome<ProcessingResult>)
        requires
            old(self).wf(),
        ensures
            final(self).wf(),
            final(self).config == old(self).config,
            final(self).is_running == old(self).is_running,
            final(self).input_queue == old(self).input_queue,
            final(self).error_count == old(self).error_count,
            final(self).last_error == old(self).last_error,
            final(self).start_time == old(self).start_time,
            final(self).output_queue.closed == old(self).output_queue.closed,
            final(self).output_queue.capacity == old(self).output_queue.capacity,
            old(self).output_queue.closed ==> (r matches PushOutcome::Closed(y) && y == result)
                && final(self).output_queue == old(self).output_queue && final(self).frames_processed == old(self).frames_processed,
            !old(self).output_queue.closed && old(self).output_queue.items@.len() >= old(self).config.max_batch_size ==> (r matches PushOutcome::Full(y) && y == result) && final(self).output_queue == old(self).output_queue && final(self).frames_processed == old(self).frames_processed,
            !old(self).output_queue.closed && old(self).output_queue.items@.len() < old(self).config.max_batch_size ==> r is Accepted && final(self).output_queue.items@ == old(self).output_queue.items@.push(result) && final(self).frames_processed == if old(self).frames_processed < u64::MAX {
                old(self).frames_processed + 1
            } else {
                u64::MAX as int
            },
    {
        let r = self.output_queue.try_push(result);
        if let PushOutcome::Accepted = r {
            if self.frames_processed < u64::MAX {
                self.frames_processed = self.frames_processed + 1;
            }
        }
        r
    }

    /// Consumer side: take the oldest result, if any. `None` with the
    /// engine stopped and the queue drained means the stream has ended.
    pub fn get_result(&mut self) -> (r: Option<ProcessingResult>)
        requires
            old(self).wf(),
        ensures
            final(self).wf(),
            final(self).config == old(self).config,
            final(self).is_running == old(self).is_running,
            final(self).input_queue == old(self).input_queue,
            final(self).frames_processed == old(self).frames_processed,
            final(self).error_count == old(self).error_count,
            final(self).last_error == old(self).last_error,
            final(self).start_time == old(self).start_time,
            final(self).output_queue.closed == old(self).output_queue.closed,
            final(self).output_queue.capacity == old(self).output_queue.capacity,
            old(self).output_queue.items@.len() == 0 ==> r is None && final(self).output_queue
                == old(self).output_queue,
            old(self).output_queue.items@.len() > 0 ==> (r matches Some(x) && x == old(self).output_queue.items@[0]) && final(self).output_queue.items@ == old(self).output_queue.items@.drop_first(),
    {
        self.output_queue.try_pop()
    }

    /// Record one frame's processing failure: the error counter advances
    /// (saturating) and the message is kept as the last error. A single
    /// frame's failure never terminates a worker.
    pub fn record_processing_error(&mut self, message: String)
        requires
            old(self).wf(),
        ensures
            final(self).wf(),
            final(self).config == old(self).config,
            final(self).is_running == old(self).is_running,
            final(self).input_queue == old(self).input_queue,
            final(self).output_queue == old(self).output_queue,
            final(self).frames_processed == old(self).frames_processed,
            final(self).start_time == old(self).start_time,
            final(self).error_count == if old(self).error_count < u64::MAX {
                old(self).error_count + 1
            } else {
                u64::MAX as int
            },
            final(self).last_error matches Some(m) && m@ == message@,
    {
        if self.error_count < u64::MAX {
            self.error_count = self.error_count + 1;
        }
        self.last_error = Some(message);
    }

    /// Aggregate counters as of `now`; the uptime is the time since the
    /// last start, never negative.
    pub fn get_metrics_at(&self, now: i64) -> (r: EngineMetrics)
        ensures
            r.frames_processed == self.frames_processed,
            r.error_count == self.error_count,
            r.is_running == self.is_running,
            r.uptime == if now < self.start_time {
                0
            } else if now - self.start_time <= i64::MAX {
                now - self.start_time
            } else {
                i64::MAX as int
            },
    {
        let uptime: i64 = if now >= self.start_time {
            // both operands fit in i64 and the difference is nonnegative,
            // but the subtraction itself could exceed i64::MAX
            if self.start_time >= 0 || now <= self.start_time + i64::MAX {
                now - self.start_time
            } else {
                i64::MAX
            }
        } else {
            0
        };
        EngineMetrics {
            frames_processed: self.frames_processed,
            error_count: self.error_count,
            uptime,
            is_running: self.is_running,
        }
    }
}


impl Engine {
    /// Build an engine, reading the wall clock for the initial start
    /// time.
    pub fn new(config: EngineConfig) -> (r: Result<Engine, CoreError>)
        ensures
            (r is Ok) == engine_config_valid(config),
            r is Err ==> r->Err_0 is Config,
            r is Ok ==> {
                let e = r->Ok_0;
                &&& e.wf()
                &&& e.config == config
                &&& !e.is_running
                &&& e.frames_processed == 0
                &&& e.error_count == 0
                &&& e.last_error is None
                &&& e.input_queue.items@.len() == 0
                &&& !e.input_queue.closed
                &&& e.output_queue.items@.len() == 0
                &&& !e.output_queue.closed
            },
    {
        let now = crate::clock::now_timestamp();
        Engine::new_at(config, now)
    }

    /// Start the engine, recording the wall clock as the start time;
    /// idempotent.
    pub fn start(&mut self)
        requires
            old(self).wf(),
        ensures
            final(self).wf(),
            old(self).is_running ==> *final(self) == *old(self),
            final(self).is_running,
            final(self).config == old(self).config,
            final(self).frames_processed == old(self).frames_processed,
            final(self).error_count == old(self).error_count,
            final(self).last_error == old(self).last_error,
            final(self).input_queue == old(self).input_queue,
            final(self).output_queue == old(self).output_queue,
    {
        let now = crate::clock::now_timestamp();
        self.start_at(now);
    }

    /// Aggregate counters as of the wall clock.
    pub fn get_metrics(&self) -> (r: EngineMetrics)
        ensures
            r.frames_processed == self.frames_processed,
            r.error_count == self.error_count,
            r.is_running == self.is_running,
            r.uptime >= 0,
    {
        let now = crate::clock::now_timestamp();
        self.get_metrics_at(now)
    }
}

} // verus!
