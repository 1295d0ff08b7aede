//! Aggregate system state: four independently updatable partitions, a
//! bounded FIFO snapshot history, and a capped error log.
//!
//! Every mutation goes through the `StateManager`; engine-state updates
//! additionally take a snapshot. Reads return fully formed clones.

use vstd::prelude::*;

use crate::errors::CoreError;

verus! {

/// The error log keeps at most this many entries; the oldest are evicted
/// first.
pub const ERROR_HISTORY_LIMIT: usize = 100;

/// A bounded FIFO push: append `x`, then drop the oldest entries until at
/// most `cap` remain.
pub open spec fn push_bounded<T>(s: Seq<T>, x: T, cap: int) -> Seq<T> {
    let grown = s.push(x);
    if grown.len() <= cap {
        grown
    } else {
        grown.skip(grown.len() - cap)
    }
}

#[derive(Debug, Clone, Copy, PartialEq, Eq, Structural)]
pub enum EngineStatus {
    Starting,
    Running,
    Paused,
    Stopping,
    Stopped,
    Error,
}

/// Engine partition. `fps` is in thousandths of a frame per second.
#[derive(Debug, Clone, Copy, PartialEq, Eq, Structural)]
pub struct EngineState {
    pub status: EngineStatus,
    pub frames_processed: u64,
    pub fps: u64,
    pub uptime: i64,
    pub last_active: i64,
}

/// Per-stage counters. `average_time` is in microseconds.
#[derive(Debug, Clone, Copy, PartialEq, Eq, Structural)]
pub struct StageMetrics {
    pub processed_items: u64,
    pub errors: u64,
    pub average_time: u64,
    pub last_processed: i64,
}

/// Pipeline partition. `processing_latency` is in microseconds; stage
/// metrics are keyed by stage name, unique within a pipeline.
#[derive(Debug)]
pub struct PipelineState {
    pub active_stages: Vec<String>,
    pub stage_metrics: Vec<(String, StageMetrics)>,
    pub queue_size: usize,
    pub processing_latency: u64,
}

/// Resource partition. Usages are fractions of `UNIT_SCALE`; the
/// temperature is in millidegrees.
#[derive(Debug, Clone, Copy, PartialEq, Eq, Structural)]
pub struct ResourceState {
    pub gpu_usage: u32,
    pub memory_usage: u32,
    pub cpu_usage: u32,
    pub disk_usage: u32,
    pub temperature: u32,
}

/// One recorded error.
#[derive(Debug)]
pub struct ErrorInfo {
    pub timestamp: i64,
    pub error_type: String,
    pub message: String,
    pub context: Vec<(String, String)>,
}

/// Error partition: a running count, the most recent error, and a capped
/// FIFO log.
#[derive(Debug)]
pub struct ErrorState {
    pub error_count: u64,
    pub last_error: Option<ErrorInfo>,
    pub error_history: Vec<ErrorInfo>,
}

/// The aggregate system state.
#[derive(Debug)]
pub struct SystemState {
    pub engine_state: EngineState,
    pub pipeline_state: PipelineState,
    pub resource_state: ResourceState,
    pub error_state: ErrorState,
}

/// An immutable, timestamped copy of the aggregate state.
#[derive(Debug)]
pub struct StateSnapshot {
    pub timestamp: i64,
    pub state: SystemState,
}

#[derive(Debug, Clone)]
pub struct StateConfig {
    pub history_size: usize,
    pub snapshot_interval: i64,
    pub persist_state: bool,
    pub state_file: String,
}

/// The mathematical value of a `PipelineState`.
pub struct PipelineStateView {
    pub active_stages: Seq<Seq<char>>,
    pub stage_metrics: Seq<(Seq<char>, StageMetrics)>,
    pub queue_size: int,
    pub processing_latency: int,
}

pub open spec fn string_view_fn() -> spec_fn(String) -> Seq<char> {
    |s: String| s@
}

pub open spec fn metric_entry_view_fn() -> spec_fn((String, StageMetrics)) -> (
    Seq<char>,
    StageMetrics,
) {
    |p: (String, StageMetrics)| (p.0@, p.1)
}

impl View for PipelineState {
    type V = PipelineStateView;

    open spec fn view(&self) -> PipelineStateView {
        PipelineStateView {
            active_stages: self.active_stages@.map_values(string_view_fn()),
            stage_metrics: self.stage_metrics@.map_values(metric_entry_view_fn()),
            queue_size: self.queue_size as int,
            processing_latency: self.processing_latency as int,
        }
    }
}

impl Clone for PipelineState {
    fn clone(&self) -> (r: Self)
        ensures
            r@ == self@,
    {
        let mut active_stages: Vec<String> = Vec::new();
        let mut i: usize = 0;
        proof {
            assert(self.active_stages@.take(0).map_values(string_view_fn()) =~= Seq::<
                Seq<char>,
            >::empty());
            assert(active_stages@.map_values(string_view_fn()) =~= Seq::<Seq<char>>::empty());
        }
        while i < self.active_stages.len()
            invariant
                i <= self.active_stages@.len(),
                active_stages@.map_values(string_view_fn()) == self.active_stages@.take(
                    i as int,
                ).map_values(string_view_fn()),
            decreases self.active_stages@.len() - i,
        {
            let ghost pre = active_stages@;
            active_stages.push(self.active_stages[i].clone());
            proof {
                pre.lemma_push_map_commute(string_view_fn(), active_stages@.last());
                self.active_stages@.take(i as int).lemma_push_map_commute(
                    string_view_fn(),
                    self.active_stages@[i as int],
                );
                assert(self.active_stages@.take(i as int + 1) =~= self.active_stages@.take(
                    i as int,
                ).push(self.active_stages@[i as int]));
            }
            i += 1;
        }
        proof {
            assert(self.active_stages@.take(self.active_stages@.len() as int)
                =~= self.active_stages@);
        }
        let mut stage_metrics: Vec<(String, StageMetrics)> = Vec::new();
        let mut j: usize = 0;
        proof {
            assert(stage_metrics@.map_values(metric_entry_view_fn()) =~= Seq::<
                (Seq<char>, StageMetrics),
            >::empty());
            assert(self.stage_metrics@.take(0).map_values(metric_entry_view_fn()) =~= Seq::<
                (Seq<char>, StageMetrics),
            >::empty());
        }
        while j < self.stage_metrics.len()
            invariant
                j <= self.stage_metrics@.len(),
                stage_metrics@.map_values(metric_entry_view_fn()) == self.stage_metrics@.take(
                    j as int,
                ).map_values(metric_entry_view_fn()),
            decreases self.stage_metrics@.len() - j,
        {
            let ghost pre = stage_metrics@;
            let name = self.stage_metrics[j].0.clone();
            let metrics = self.stage_metrics[j].1;
            stage_metrics.push((name, metrics));
            proof {
                pre.lemma_push_map_commute(metric_entry_view_fn(), stage_metrics@.last());
                self.stage_metrics@.take(j as int).lemma_push_map_commute(
                    metric_entry_view_fn(),
                    self.stage_metrics@[j as int],
                );
                assert(self.stage_metrics@.take(j as int + 1) =~= self.stage_metrics@.take(
                    j as int,
                ).push(self.stage_metrics@[j as int]));
                assert(metric_entry_view_fn()(stage_metrics@.last()) == metric_entry_view_fn()(
                    self.stage_metrics@[j as int],
                ));
            }
            j += 1;
        }
        proof {
            assert(self.stage_metrics@.take(self.stage_metrics@.len() as int)
                =~= self.stage_metrics@);
        }
        PipelineState {
            active_stages,
            stage_metrics,
            queue_size: self.queue_size,
            processing_latency: self.processing_latency,
        }
    }
}

/// The mathematical value of an `ErrorInfo`.
pub struct ErrorInfoView {
    pub timestamp: int,
    pub error_type: Seq<char>,
    pub message: Seq<char>,
    pub context: Seq<(Seq<char>, Seq<char>)>,
}

pub open spec fn string_pair_view_fn() -> spec_fn((String, String)) -> (Seq<char>, Seq<char>) {
    |p: (String, String)| (p.0@, p.1@)
}

impl View for ErrorInfo {
    type V = ErrorInfoView;

    open spec fn view(&self) -> ErrorInfoView {
        ErrorInfoView {
            timestamp: self.timestamp as int,
            error_type: self.error_type@,
            message: self.message@,
            context: self.context@.map_values(string_pair_view_fn()),
        }
    }
}

impl Clone for ErrorInfo {
    fn clone(&self) -> (r: Self)
        ensures
            r@ == self@,
    {
        let mut context: Vec<(String, String)> = Vec::new();
        let mut i: usize = 0;
        proof {
            assert(context@.map_values(string_pair_view_fn()) =~= Seq::<
                (Seq<char>, Seq<char>),
            >::empty());
            assert(self.context@.take(0).map_values(string_pair_view_fn()) =~= Seq::<
                (Seq<char>, Seq<char>),
            >::empty());
        }
        while i < self.context.len()
            invariant
                i <= self.context@.len(),
                context@.map_values(string_pair_view_fn()) == self.context@.take(
                    i as int,
                ).map_values(string_pair_view_fn()),
            decreases self.context@.len() - i,
        {
            let ghost pre = context@;
            let key = self.context[i].0.clone();
            let value = self.context[i].1.clone();
            context.push((key, value));
            proof {
                pre.lemma_push_map_commute(string_pair_view_fn(), context@.last());
                self.context@.take(i as int).lemma_push_map_commute(
                    string_pair_view_fn(),
                    self.context@[i as int],
                );
                assert(self.context@.take(i as int + 1) =~= self.context@.take(i as int).push(
                    self.context@[i as int],
                ));
                assert(string_pair_view_fn()(context@.last()) == string_pair_view_fn()(
                    self.context@[i as int],
                ));
            }
            i += 1;
        }
        proof {
            assert(self.context@.take(self.context@.len() as int) =~= self.context@);
        }
        ErrorInfo {
            timestamp: self.timestamp,
            error_type: self.error_type.clone(),
            message: self.message.clone(),
            context,
        }
    }
}

/// The mathematical value of an `ErrorState`.
pub struct ErrorStateView {
    pub error_count: int,
    pub last_error: Option<ErrorInfoView>,
    pub error_history: Seq<ErrorInfoView>,
}

pub open spec fn error_info_view_fn() -> spec_fn(ErrorInfo) -> ErrorInfoView {
    |e: ErrorInfo| e@
}

impl View for ErrorState {
    type V = ErrorStateView;

    open spec fn view(&self) -> ErrorStateView {
        ErrorStateView {
            error_count: self.error_count as int,
            last_error: match self.last_error {
                Some(ref e) => Some(e@),
                None => None,
            },
            error_history: self.error_history@.map_values(error_info_view_fn()),
        }
    }
}

impl Clone for ErrorState {
    fn clone(&self) -> (r: Self)
        ensures
            r@ == self@,
    {
        let last_error = match &self.last_error {
            Some(e) => Some(e.clone()),
            None => None,
        };
        let mut error_history: Vec<ErrorInfo> = Vec::new();
        let mut i: usize = 0;
        proof {
            assert(error_history@.map_values(error_info_view_fn()) =~= Seq::<
                ErrorInfoView,
            >::empty());
            assert(self.error_history@.take(0).map_values(error_info_view_fn()) =~= Seq::<
                ErrorInfoView,
            >::empty());
        }
        while i < self.error_history.len()
            invariant
                i <= self.error_history@.len(),
                error_history@.map_values(error_info_view_fn()) == self.error_history@.take(
                    i as int,
                ).map_values(error_info_view_fn()),
            decreases self.error_history@.len() - i,
        {
            let ghost pre = error_history@;
            error_history.push(self.error_history[i].clone());
            proof {
                pre.lemma_push_map_commute(error_info_view_fn(), error_history@.last());
                self.error_history@.take(i as int).lemma_push_map_commute(
                    error_info_view_fn(),
                    self.error_history@[i as int],
                );
                assert(self.error_history@.take(i as int + 1) =~= self.error_history@.take(
                    i as int,
                ).push(self.error_history@[i as int]));
                assert(error_info_view_fn()(error_history@.last()) == error_info_view_fn()(
                    self.error_history@[i as int],
                ));
            }
            i += 1;
        }
        proof {
            assert(self.error_history@.take(self.error_history@.len() as int)
                =~= self.error_history@);
        }
        ErrorState { error_count: self.error_count, last_error, error_history }
    }
}

/// The mathematical value of a `SystemState`.
pub struct SystemStateView {
    pub engine_state: EngineState,
    pub pipeline_state: PipelineStateView,
    pub resource_state: ResourceState,
    pub error_state: ErrorStateView,
}

impl View for SystemState {
    type V = SystemStateView;

    open spec fn view(&self) -> SystemStateView {
        SystemStateView {
            engine_state: self.engine_state,
            pipeline_state: self.pipeline_state@,
            resource_state: self.resource_state,
            error_state: self.error_state@,
        }
    }
}

impl Clone for SystemState {
    fn clone(&self) -> (r: Self)
        ensures
            r@ == self@,
    {
        SystemState {
            engine_state: self.engine_state,
            pipeline_state: self.pipeline_state.clone(),
            resource_state: self.resource_state,
            error_state: self.error_state.clone(),
        }
    }
}

/// The mathematical value of a `StateSnapshot`.
pub struct StateSnapshotView {
    pub timestamp: int,
    pub state: SystemStateView,
}

pub open spec fn snapshot_view_fn() -> spec_fn(StateSnapshot) -> StateSnapshotView {
    |s: StateSnapshot| s@
}

impl View for StateSnapshot {
    type V = StateSnapshotView;

    open spec fn view(&self) -> StateSnapshotView {
        StateSnapshotView { timestamp: self.timestamp as int, state: self.state@ }
    }
}

impl Clone for StateSnapshot {
    fn clone(&self) -> (r: Self)
        ensures
            r@ == self@,
    {
        StateSnapshot { timestamp: self.timestamp, state: self.state.clone() }
    }
}

/// The views of a snapshot history.
pub open spec fn history_views(h: Seq<StateSnapshot>) -> Seq<StateSnapshotView> {
    h.map_values(snapshot_view_fn())
}

/// The views of an error log.
pub open spec fn error_views(h: Seq<ErrorInfo>) -> Seq<ErrorInfoView> {
    h.map_values(error_info_view_fn())
}

/// Aggregates the four state partitions, keeps a bounded snapshot history,
/// and records errors in a capped FIFO log.
#[derive(Debug)]
pub struct StateManager {
    pub state: SystemState,
    pub history: Vec<StateSnapshot>,
    pub config: StateConfig,
}

impl StateManager {
    /// Structural bounds that every operation preserves: the snapshot
    /// history never exceeds `history_size` and the error log never
    /// exceeds `ERROR_HISTORY_LIMIT`.
    pub open spec fn wf(&self) -> bool {
        &&& self.history@.len() <= self.config.history_size
        &&& self.state.error_state.error_history@.len() <= ERROR_HISTORY_LIMIT
        &&& self.config.snapshot_interval > 0
    }

    /// Build a state manager around an empty initial state. A
    /// non-positive snapshot interval is an invalid configuration and
    /// fails construction.
    pub fn new_at(config: StateConfig, now: i64) -> (r: Result<StateManager, CoreError>)
        ensures
            (r is Ok) == (config.snapshot_interval > 0),
            r is Err ==> r->Err_0 is Config,
            r is Ok ==> {
                let m = r->Ok_0;
                &&& m.wf()
                &&& m.config == config
                &&& m.history@.len() == 0
                &&& m.state.engine_state == (EngineState {
                    status: EngineStatus::Stopped,
                    frames_processed: 0,
                    fps: 0,
                    uptime: 0,
                    last_active: now,
                })
                &&& m.state.pipeline_state@.active_stages.len() == 0
                &&& m.state.pipeline_state@.stage_metrics.len() == 0
                &&& m.state.pipeline_state@.queue_size == 0
                &&& m.state.pipeline_state@.processing_latency == 0
                &&& m.state.resource_state == (ResourceState {
                    gpu_usage: 0,
                    memory_usage: 0,
                    cpu_usage: 0,
                    disk_usage: 0,
                    temperature: 0,
                })
                &&& m.state.error_state@.error_count == 0
                &&& m.state.error_state@.last_error is None
                &&& m.state.error_state@.error_history.len() == 0
            },
    {
        if config.snapshot_interval <= 0 {
            return Err(CoreError::Config("snapshot interval must be positive".to_owned()));
        }
        let initial_state = SystemState {
            engine_state: EngineState {
                status: EngineStatus::Stopped,
                frames_processed: 0,
                fps: 0,
                uptime: 0,
                last_active: now,
            },
            pipeline_state: PipelineState {
                active_stages: Vec::new(),
                stage_metrics: Vec::new(),
                queue_size: 0,
                processing_latency: 0,
            },
            resource_state: ResourceState {
                gpu_usage: 0,
                memory_usage: 0,
                cpu_usage: 0,
                disk_usage: 0,
                temperature: 0,
            },
            error_state: ErrorState { error_count: 0, last_error: None, error_history: Vec::new() },
        };
        Ok(StateManager { state: initial_state, history: Vec::new(), config })
    }

    /// Replace the engine partition and take a snapshot: the new aggregate
    /// state is appended to the history, evicting the oldest snapshots
    /// beyond `history_size`.
    pub fn update_engine_state_at(&mut self, state: EngineState, now: i64)
        requires
            old(self).wf(),
        ensures
            final(self).wf(),
            final(self).config == old(self).config,
            final(self).state.engine_state == state,
            final(self).state.pipeline_state == old(self).state.pipeline_state,
            final(self).state.resource_state == old(self).state.resource_state,
            final(self).state.error_state == old(self).state.error_state,
            history_views(final(self).history@) == push_bounded(
                history_views(old(self).history@),
                StateSnapshotView { timestamp: now as int, state: final(self).state@ },
                old(self).config.history_size as int,
            ),
            final(self).history@.len() <= old(self).history@.len() + 1,
    {
        self.state.engine_state = state;
        self.take_snapshot(now);
    }

    /// Replace the pipeline partition; no snapshot is taken.
    pub fn update_pipeline_state(&mut self, state: PipelineState)
        requires
            old(self).wf(),
        ensures
            final(self).wf(),
            final(self).config == old(self).config,
            final(self).state.pipeline_state == state,
            final(self).state.engine_state == old(self).state.engine_state,
            final(self).state.resource_state == old(self).state.resource_state,
            final(self).state.error_state == old(self).state.error_state,
            final(self).history == old(self).history,
    {
        self.state.pipeline_state = state;
    }

    /// Replace the resource partition; no snapshot is taken.
    pub fn update_resource_state(&mut self, state: ResourceState)
        requires
            old(self).wf(),
        ensures
            final(self).wf(),
            final(self).config == old(self).config,
            final(self).state.resource_state == state,
            final(self).state.engine_state == old(self).state.engine_state,
            final(self).state.pipeline_state == old(self).state.pipeline_state,
            final(self).state.error_state == old(self).state.error_state,
            final(self).history == old(self).history,
    {
        self.state.resource_state = state;
    }

    /// Record one error: bump the count, remember it as the most recent,
    /// and append it to the capped FIFO log (oldest evicted first).
    pub fn record_error(&mut self, error: ErrorInfo)
        requires
            old(self).wf(),
        ensures
            final(self).wf(),
            final(self).config == old(self).config,
            final(self).history == old(self).history,
            final(self).state.engine_state == old(self).state.engine_state,
            final(self).state.pipeline_state == old(self).state.pipeline_state,
            final(self).state.resource_state == old(self).state.resource_state,
            final(self).state.error_state@.error_count == if old(
                self,
            ).state.error_state.error_count < u64::MAX {
                old(self).state.error_state.error_count + 1
            } else {
                u64::MAX as int
            },
            final(self).state.error_state@.last_error == Some(error@),
            error_views(final(self).state.error_state.error_history@) == push_bounded(
                error_views(old(self).state.error_state.error_history@),
                error@,
                ERROR_HISTORY_LIMIT as int,
            ),
            final(self).state.error_state.error_history@.len() <= ERROR_HISTORY_LIMIT,
    {
        if self.state.error_state.error_count < u64::MAX {
            self.state.error_state.error_count = self.state.error_state.error_count + 1;
        }
        let recent = error.clone();
        let ghost log_pre = self.state.error_state.error_history@;
        self.state.error_state.error_history.push(error);
        self.state.error_state.last_error = Some(recent);
        proof {
            log_pre.lemma_push_map_commute(
                error_info_view_fn(),
                self.state.error_state.error_history@.last(),
            );
        }
        if self.state.error_state.error_history.len() > ERROR_HISTORY_LIMIT {
            let ghost grown = self.state.error_state.error_history@;
            let _evicted = self.state.error_state.error_history.remove(0);
            proof {
                assert(self.state.error_state.error_history@ =~= grown.skip(1));
                assert(error_views(grown.skip(1)) =~= error_views(grown).skip(1));
                assert(error_views(grown).skip(1) =~= push_bounded(
                    error_views(log_pre),
                    grown.last()@,
                    ERROR_HISTORY_LIMIT as int,
                ));
            }
        }
    }

    /// A fully formed clone of the current aggregate state.
    pub fn get_current_state(&self) -> (r: SystemState)
        ensures
            r@ == self.state@,
    {
        self.state.clone()
    }

    /// A fully formed clone of the snapshot history, oldest first.
    pub fn get_state_history(&self) -> (r: Vec<StateSnapshot>)
        ensures
            history_views(r@) == history_views(self.history@),
    {
        let mut out: Vec<StateSnapshot> = Vec::new();
        let mut i: usize = 0;
        proof {
            assert(history_views(out@) =~= Seq::<StateSnapshotView>::empty());
            assert(history_views(self.history@.take(0)) =~= Seq::<StateSnapshotView>::empty());
        }
        while i < self.history.len()
            invariant
                i <= self.history@.len(),
                history_views(out@) == history_views(self.history@.take(i as int)),
            decreases self.history@.len() - i,
        {
            let ghost pre = out@;
            out.push(self.history[i].clone());
            proof {
                pre.lemma_push_map_commute(snapshot_view_fn(), out@.last());
                self.history@.take(i as int).lemma_push_map_commute(
                    snapshot_view_fn(),
                    self.history@[i as int],
                );
                assert(self.history@.take(i as int + 1) =~= self.history@.take(i as int).push(
                    self.history@[i as int],
                ));
                assert(snapshot_view_fn()(out@.last()) == snapshot_view_fn()(
                    self.history@[i as int],
                ));
            }
            i += 1;
        }
        proof {
            assert(self.history@.take(self.history@.len() as int) =~= self.history@);
        }
        out
    }

    /// Clone the current state into a timestamped snapshot, append it to
    /// the bounded history, and evict the oldest entries beyond
    /// `history_size`.
    fn take_snapshot(&mut self, now: i64)
        requires
            old(self).history@.len() <= old(self).config.history_size,
        ensures
            final(self).state == old(self).state,
            final(self).config == old(self).config,
            final(self).history@.len() <= final(self).config.history_size,
            final(self).history@.len() <= old(self).history@.len() + 1,
            history_views(final(self).history@) == push_bounded(
                history_views(old(self).history@),
                StateSnapshotView { timestamp: now as int, state: old(self).state@ },
                old(self).config.history_size as int,
            ),
    {
        let snapshot = StateSnapshot { timestamp: now, state: self.state.clone() };
        proof {
            assert(snapshot@ == (StateSnapshotView { timestamp: now as int, state: self.state@ }));
        }
        let ghost pre = self.history@;
        self.history.push(snapshot);
        proof {
            pre.lemma_push_map_commute(snapshot_view_fn(), self.history@.last());
        }
        if self.history.len() > self.config.history_size {
            let ghost grown = self.history@;
            let _evicted = self.history.remove(0);
            proof {
                assert(self.history@ =~= grown.skip(1));
                assert(history_views(grown.skip(1)) =~= history_views(grown).skip(1));
                assert(history_views(grown).skip(1) =~= push_bounded(
                    history_views(pre),
                    grown.last()@,
                    old(self).config.history_size as int,
                ));
            }
        }
    }

    /// One tick of the periodic monitor: replace the resource partition
    /// with the sampled values and, when the engine is running, advance
    /// its uptime by the snapshot interval (saturating).
    pub fn apply_monitor_tick(&mut self, resources: ResourceState)
        requires
            old(self).wf(),
        ensures
            final(self).wf(),
            final(self).config == old(self).config,
            final(self).history == old(self).history,
            final(self).state.resource_state == resources,
            final(self).state.pipeline_state == old(self).state.pipeline_state,
            final(self).state.error_state == old(self).state.error_state,
            old(self).state.engine_state.status is Running ==> final(self).state.engine_state == (
            EngineState {
                uptime: if old(self).state.engine_state.uptime + old(self).config.snapshot_interval
                    <= i64::MAX {
                    (old(self).state.engine_state.uptime + old(
                        self,
                    ).config.snapshot_interval) as i64
                } else {
                    i64::MAX
                },
                ..old(self).state.engine_state
            }),
            !(old(self).state.engine_state.status is Running) ==> final(self).state.engine_state
                == old(self).state.engine_state,
    {
        self.state.resource_state = resources;
        if matches!(self.state.engine_state.status, EngineStatus::Running) {
            let interval = self.config.snapshot_interval;
            if self.state.engine_state.uptime <= i64::MAX - interval {
                self.state.engine_state.uptime = self.state.engine_state.uptime + interval;
            } else {
                self.state.engine_state.uptime = i64::MAX;
            }
        }
    }
}


impl StateManager {
    /// Build a state manager, stamping the initial engine activity from
    /// the wall clock.
    pub fn new(config: StateConfig) -> (r: Result<StateManager, CoreError>)
        ensures
            (r is Ok) == (config.snapshot_interval > 0),
            r is Err ==> r->Err_0 is Config,
            r is Ok ==> {
                let m = r->Ok_0;
                &&& m.wf()
                &&& m.config == config
                &&& m.history@.len() == 0
                &&& m.state.engine_state.status is Stopped
                &&& m.state.engine_state.frames_processed == 0
                &&& m.state.engine_state.fps == 0
                &&& m.state.engine_state.uptime == 0
                &&& m.state.pipeline_state@.active_stages.len() == 0
                &&& m.state.pipeline_state@.stage_metrics.len() == 0
                &&& m.state.pipeline_state@.queue_size == 0
                &&& m.state.pipeline_state@.processing_latency == 0
                &&& m.state.resource_state == (ResourceState {
                    gpu_usage: 0,
                    memory_usage: 0,
                    cpu_usage: 0,
                    disk_usage: 0,
                    temperature: 0,
                })
                &&& m.state.error_state@.error_count == 0
                &&& m.state.error_state@.last_error is None
                &&& m.state.error_state@.error_history.len() == 0
            },
    {
        let now = crate::clock::now_timestamp();
        StateManager::new_at(config, now)
    }

    /// Replace the engine partition and take a snapshot stamped with the
    /// wall clock.
    pub fn update_engine_state(&mut self, state: EngineState)
        requires
            old(self).wf(),
        ensures
            final(self).wf(),
            final(self).config == old(self).config,
            final(self).state.engine_state == state,
            final(self).state.pipeline_state == old(self).state.pipeline_state,
            final(self).state.resource_state == old(self).state.resource_state,
            final(self).state.error_state == old(self).state.error_state,
            exists|t: int|
                history_views(final(self).history@) == push_bounded(
                    history_views(old(self).history@),
                    StateSnapshotView { timestamp: t, state: final(self).state@ },
                    old(self).config.history_size as int,
                ),
            final(self).history@.len() <= old(self).history@.len() + 1,
    {
        let now = crate::clock::now_timestamp();
        self.update_engine_state_at(state, now);
        proof {
            assert(history_views(self.history@) == push_bounded(
                history_views(old(self).history@),
                StateSnapshotView { timestamp: now as int, state: self.state@ },
                old(self).config.history_size as int,
            ));
        }
    }
}

} // verus!
