//! Staged pipeline orchestration: an ordered chain of named stages, a
//! bounded input and output queue, per-stage metrics, and the retry
//! policy for failing stages.
//!
//! The worker pool is asynchronous plumbing around this core. A worker
//! drives one item through the chain by following `StepAction`s: it
//! begins with `begin_item`, runs the named stage (bounded by the
//! configured timeout), and reports the outcome with `on_stage_success`
//! or `on_stage_failure` — a timeout counts as a failed attempt. An item
//! whose stage fails beyond the retry budget is dropped; nothing is
//! emitted for it.

use vstd::prelude::*;

use crate::analyzer::Analysis;
use crate::detector::Detection;
use crate::errors::CoreError;
use crate::processor::Frame;
use crate::queue::{BoundedQueue, PushOutcome};
use crate::state::string_pair_view_fn;

verus! {

#[derive(Debug, Clone)]
pub struct PipelineConfig {
    pub stages: Vec<StageConfig>,
    pub max_parallel_stages: usize,
    pub buffer_size: usize,
    pub timeout_ms: u64,
    pub retry_count: u32,
}

#[derive(Debug)]
pub struct StageConfig {
    pub name: String,
    pub stage_type: StageType,
    pub enabled: bool,
    pub params: Vec<(String, String)>,
}

#[derive(Debug, Clone, Copy, PartialEq, Eq, Structural)]
pub enum StageType {
    PreProcess,
    Detection,
    Analysis,
    Inference,
    PostProcess,
}

/// The mathematical value of a `StageConfig`.
pub struct StageConfigView {
    pub name: Seq<char>,
    pub stage_type: StageType,
    pub enabled: bool,
    pub params: Seq<(Seq<char>, Seq<char>)>,
}

impl View for StageConfig {
    type V = StageConfigView;

    open spec fn view(&self) -> StageConfigView {
        StageConfigView {
            name: self.name@,
            stage_type: self.stage_type,
            enabled: self.enabled,
            params: self.params@.map_values(string_pair_view_fn()),
        }
    }
}

impl Clone for StageConfig {
    fn clone(&self) -> (r: Self)
        ensures
            r@ == self@,
            r.stage_type == self.stage_type,
            r.enabled == self.enabled,
    {
        let mut params: Vec<(String, String)> = Vec::new();
        let mut i: usize = 0;
        proof {
            assert(params@.map_values(string_pair_view_fn()) =~= Seq::<
                (Seq<char>, Seq<char>),
            >::empty());
            assert(self.params@.take(0).map_values(string_pair_view_fn()) =~= Seq::<
                (Seq<char>, Seq<char>),
            >::empty());
        }
        while i < self.params.len()
            invariant
                i <= self.params@.len(),
                params@.map_values(string_pair_view_fn()) == self.params@.take(
                    i as int,
                ).map_values(string_pair_view_fn()),
            decreases self.params@.len() - i,
        {
            let ghost pre = params@;
            let key = self.params[i].0.clone();
            let value = self.params[i].1.clone();
            params.push((key, value));
            proof {
                pre.lemma_push_map_commute(string_pair_view_fn(), params@.last());
                self.params@.take(i as int).lemma_push_map_commute(
                    string_pair_view_fn(),
                    self.params@[i as int],
                );
                assert(self.params@.take(i as int + 1) =~= self.params@.take(i as int).push(
                    self.params@[i as int],
                ));
                assert(string_pair_view_fn()(params@.last()) == string_pair_view_fn()(
                    self.params@[i as int],
                ));
            }
            i += 1;
        }
        proof {
            assert(self.params@.take(self.params@.len() as int) =~= self.params@);
        }
        StageConfig {
            name: self.name.clone(),
            stage_type: self.stage_type,
            enabled: self.enabled,
            params,
        }
    }
}

/// One item flowing through the pipeline; exactly one stage mutates it at
/// a time.
#[derive(Debug)]
pub struct PipelineData {
    pub frame: Frame,
    pub detections: Vec<Detection>,
    pub analysis: Option<Analysis>,
    pub metadata: Vec<(String, String)>,
    pub timestamp: i64,
}

/// One named, ordered transform step.
pub trait PipelineStage {
    fn process(&self, input: PipelineData) -> Result<PipelineData, CoreError>;

    fn stage_type(&self) -> StageType;

    fn name(&self) -> String;
}

#[derive(Debug)]
pub struct PreProcessStage {
    pub config: StageConfig,
}

impl PreProcessStage {
    pub fn new(config: StageConfig) -> (r: Self)
        ensures
            r.config == config,
    {
        PreProcessStage { config }
    }
}

impl PipelineStage for PreProcessStage {
    fn process(&self, input: PipelineData) -> Result<PipelineData, CoreError> {
        Ok(input)
    }

    fn stage_type(&self) -> StageType {
        StageType::PreProcess
    }

    fn name(&self) -> String {
        self.config.name.clone()
    }
}

#[derive(Debug)]
pub struct DetectionStage {
    pub config: StageConfig,
}

impl DetectionStage {
    pub fn new(config: StageConfig) -> (r: Self)
        ensures
            r.config == config,
    {
        DetectionStage { config }
    }
}

impl PipelineStage for DetectionStage {
    fn process(&self, input: PipelineData) -> Result<PipelineData, CoreError> {
        Ok(input)
    }

    fn stage_type(&self) -> StageType {
        StageType::Detection
    }

    fn name(&self) -> String {
        self.config.name.clone()
    }
}

#[derive(Debug)]
pub struct AnalysisStage {
    pub config: StageConfig,
}

impl AnalysisStage {
    pub fn new(config: StageConfig) -> (r: Self)
        ensures
            r.config == config,
    {
        AnalysisStage { config }
    }
}

impl PipelineStage for AnalysisStage {
    fn process(&self, input: PipelineData) -> Result<PipelineData, CoreError> {
        Ok(input)
    }

    fn stage_type(&self) -> StageType {
        StageType::Analysis
    }

    fn name(&self) -> String {
        self.config.name.clone()
    }
}

#[derive(Debug)]
pub struct InferenceStage {
    pub config: StageConfig,
}

impl InferenceStage {
    pub fn new(config: StageConfig) -> (r: Self)
        ensures
            r.config == config,
    {
        InferenceStage { config }
    }
}

impl PipelineStage for InferenceStage {
    fn process(&self, input: PipelineData) -> Result<PipelineData, CoreError> {
        Ok(input)
    }

    fn stage_type(&self) -> StageType {
        StageType::Inference
    }

    fn name(&self) -> String {
        self.config.name.clone()
    }
}

#[derive(Debug)]
pub struct PostProcessStage {
    pub config: StageConfig,
}

impl PostProcessStage {
    pub fn new(config: StageConfig) -> (r: Self)
        ensures
            r.config == config,
    {
        PostProcessStage { config }
    }
}

impl PipelineStage for PostProcessStage {
    fn process(&self, input: PipelineData) -> Result<PipelineData, CoreError> {
        Ok(input)
    }

    fn stage_type(&self) -> StageType {
        StageType::PostProcess
    }

    fn name(&self) -> String {
        self.config.name.clone()
    }
}

/// The closed set of stage variants, dispatched without dynamic dispatch.
#[derive(Debug)]
pub enum Stage {
    PreProcess(PreProcessStage),
    Detection(DetectionStage),
    Analysis(AnalysisStage),
    Inference(InferenceStage),
    PostProcess(PostProcessStage),
}

impl Stage {
    pub open spec fn spec_config(&self) -> StageConfig {
        match self {
            Stage::PreProcess(s) => s.config,
            Stage::Detection(s) => s.config,
            Stage::Analysis(s) => s.config,
            Stage::Inference(s) => s.config,
            Stage::PostProcess(s) => s.config,
        }
    }

    pub open spec fn spec_stage_type(&self) -> StageType {
        match self {
            Stage::PreProcess(_) => StageType::PreProcess,
            Stage::Detection(_) => StageType::Detection,
            Stage::Analysis(_) => StageType::Analysis,
            Stage::Inference(_) => StageType::Inference,
            Stage::PostProcess(_) => StageType::PostProcess,
        }
    }

    /// Run this stage's transform over one item. The built-in variants
    /// pass the item through unchanged; real transforms live with the
    /// detector, analyzer and inference collaborators.
    pub fn process(&self, input: PipelineData) -> (r: Result<PipelineData, CoreError>)
        ensures
            r is Ok,
            r->Ok_0 == input,
    {
        match self {
            Stage::PreProcess(_) => Ok(input),
            Stage::Detection(_) => Ok(input),
            Stage::Analysis(_) => Ok(input),
            Stage::Inference(_) => Ok(input),
            Stage::PostProcess(_) => Ok(input),
        }
    }

    pub fn stage_type(&self) -> (r: StageType)
        ensures
            r == self.spec_stage_type(),
    {
        match self {
            Stage::PreProcess(_) => StageType::PreProcess,
            Stage::Detection(_) => StageType::Detection,
            Stage::Analysis(_) => StageType::Analysis,
            Stage::Inference(_) => StageType::Inference,
            Stage::PostProcess(_) => StageType::PostProcess,
        }
    }

    pub fn name(&self) -> (r: String)
        ensures
            r@ == self.spec_config().name@,
    {
        match self {
            Stage::PreProcess(s) => s.config.name.clone(),
            Stage::Detection(s) => s.config.name.clone(),
            Stage::Analysis(s) => s.config.name.clone(),
            Stage::Inference(s) => s.config.name.clone(),
            Stage::PostProcess(s) => s.config.name.clone(),
        }
    }
}

/// Build the stage a configuration entry names.
pub fn create_stage(config: StageConfig) -> (r: Stage)
    ensures
        r.spec_config() == config,
        r.spec_stage_type() == config.stage_type,
{
    match config.stage_type {
        StageType::PreProcess => Stage::PreProcess(PreProcessStage::new(config)),
        StageType::Detection => Stage::Detection(DetectionStage::new(config)),
        StageType::Analysis => Stage::Analysis(AnalysisStage::new(config)),
        StageType::Inference => Stage::Inference(InferenceStage::new(config)),
        StageType::PostProcess => Stage::PostProcess(PostProcessStage::new(config)),
    }
}

/// Per-stage counters. `avg_processing_time` is in microseconds.
#[derive(Debug, Clone, Copy, PartialEq, Eq, Structural)]
pub struct StageMetrics {
    pub processed: u64,
    pub errors: u64,
    pub avg_processing_time: u64,
    pub last_processed: i64,
}

/// Aggregate pipeline counters. `uptime` is in seconds.
#[derive(Debug)]
pub struct PipelineMetrics {
    pub processed_frames: u64,
    pub errors: u64,
    pub stage_metrics: Vec<(String, StageMetrics)>,
    pub uptime: i64,
    pub is_running: bool,
}

pub open spec fn metric_pair_view_fn() -> spec_fn((String, StageMetrics)) -> (
    Seq<char>,
    StageMetrics,
) {
    |p: (String, StageMetrics)| (p.0@, p.1)
}

/// The views of a metrics table.
pub open spec fn metric_views(s: Seq<(String, StageMetrics)>) -> Seq<(Seq<char>, StageMetrics)> {
    s.map_values(metric_pair_view_fn())
}

/// Index of the first entry named `name`, or `-1`.
pub open spec fn spec_find_metric(
    s: Seq<(Seq<char>, StageMetrics)>,
    name: Seq<char>,
    from: int,
) -> int
    decreases s.len() - from,
{
    if from < 0 || from >= s.len() {
        -1
    } else if s[from].0 == name {
        from
    } else {
        spec_find_metric(s, name, from + 1)
    }
}

/// One observation folded into a stage's counters: a success advances
/// `processed`, a failure advances `errors` (both saturating), and the
/// observation time is recorded.
pub open spec fn spec_bump(m: StageMetrics, success: bool, now: int) -> StageMetrics {
    StageMetrics {
        processed: if success && m.processed < u64::MAX {
            (m.processed + 1) as u64
        } else {
            m.processed
        },
        errors: if !success && m.errors < u64::MAX {
            (m.errors + 1) as u64
        } else {
            m.errors
        },
        avg_processing_time: m.avg_processing_time,
        last_processed: now as i64,
    }
}

pub open spec fn spec_fresh_metrics() -> StageMetrics {
    StageMetrics { processed: 0, errors: 0, avg_processing_time: 0, last_processed: 0 }
}

/// Record one observation for `name` in the metrics table: the named
/// entry is bumped in place, or appended when the stage has no entry yet.
fn bump_metrics(metrics: &mut Vec<(String, StageMetrics)>, name: &String, success: bool, now: i64)
    ensures
        ({
            let ms = metric_views(old(metrics)@);
            let k = spec_find_metric(ms, name@, 0);
            if k >= 0 {
                metric_views(final(metrics)@) == ms.update(
                    k,
                    (ms[k].0, spec_bump(ms[k].1, success, now as int)),
                )
            } else {
                metric_views(final(metrics)@) == ms.push(
                    (name@, spec_bump(spec_fresh_metrics(), success, now as int)),
                )
            }
        }),
{
    let ghost ms = metric_views(metrics@);
    let mut i: usize = 0;
    while i < metrics.len()
        invariant
            i <= metrics@.len(),
            metrics@ == old(metrics)@,
            ms == metric_views(metrics@),
            spec_find_metric(ms, name@, 0) == spec_find_metric(ms, name@, i as int),
        decreases metrics@.len() - i,
    {
        proof {
            assert(ms[i as int] == metric_pair_view_fn()(metrics@[i as int]));
        }
        if metrics[i].0.eq(name) {
            proof {
                assert(ms[i as int].0 == name@);
                assert(spec_find_metric(ms, name@, i as int) == i as int);
            }
            let entry_name = metrics[i].0.clone();
            let bumped = bump_one(&metrics[i].1, success, now);
            let ghost pre = metrics@;
            metrics.set(i, (entry_name, bumped));
            proof {
                assert(entry_name@ == ms[i as int].0);
                assert(bumped == spec_bump(ms[i as int].1, success, now as int));
                assert forall|m: int| 0 <= m < metrics@.len() implies metric_views(metrics@)[m]
                    == ms.update(
                    i as int,
                    (ms[i as int].0, spec_bump(ms[i as int].1, success, now as int)),
                )[m] by {
                    assert(metric_views(metrics@)[m] == metric_pair_view_fn()(metrics@[m]));
                    if m != i as int {
                        assert(metrics@[m] == pre[m]);
                        assert(ms[m] == metric_pair_view_fn()(pre[m]));
                    }
                }
                assert(metric_views(metrics@) =~= ms.update(
                    i as int,
                    (ms[i as int].0, spec_bump(ms[i as int].1, success, now as int)),
                ));
            }
            return ;
        }
        proof {
            assert(ms[i as int].0 != name@);
        }
        i += 1;
    }
    proof {
        assert(spec_find_metric(ms, name@, metrics@.len() as int) == -1);
    }
    let fresh = StageMetrics { processed: 0, errors: 0, avg_processing_time: 0, last_processed: 0 };
    let bumped = bump_one(&fresh, success, now);
    let ghost pre = metrics@;
    metrics.push((name.clone(), bumped));
    proof {
        pre.lemma_push_map_commute(metric_pair_view_fn(), metrics@.last());
        assert(metric_views(metrics@) =~= ms.push(
            (name@, spec_bump(spec_fresh_metrics(), success, now as int)),
        ));
    }
}

fn bump_one(m: &StageMetrics, success: bool, now: i64) -> (r: StageMetrics)
    ensures
        r == spec_bump(*m, success, now as int),
{
    StageMetrics {
        processed: if success && m.processed < u64::MAX {
            m.processed + 1
        } else {
            m.processed
        },
        errors: if !success && m.errors < u64::MAX {
            m.errors + 1
        } else {
            m.errors
        },
        avg_processing_time: m.avg_processing_time,
        last_processed: now,
    }
}

/// Stage names are unique within a pipeline.
pub open spec fn unique_stage_names(s: Seq<StageConfig>) -> bool {
    forall|i: int, j: int|
        0 <= i < j < s.len() ==> (#[trigger] s[i])@.name != (#[trigger] s[j])@.name
}

pub open spec fn pipeline_config_valid(c: PipelineConfig) -> bool {
    &&& c.max_parallel_stages >= 1
    &&& c.buffer_size >= 1
    &&& unique_stage_names(c.stages@)
}

/// Index of the first enabled stage at or after `from`, or the stage
/// count when none remains. A disabled stage is skipped at run time.
pub open spec fn spec_next_enabled(s: Seq<StageConfig>, from: int) -> int
    decreases s.len() - from,
{
    if from < 0 || from >= s.len() {
        s.len() as int
    } else if s[from].enabled {
        from
    } else {
        spec_next_enabled(s, from + 1)
    }
}

/// Where one item stands in the chain: the stage it is at and how many
/// attempts at that stage have already failed.
#[derive(Debug, Clone, Copy, PartialEq, Eq, Structural)]
pub struct ItemRun {
    pub stage_idx: usize,
    pub failures: u32,
}

/// What the worker must do next with an item.
#[derive(Debug, Clone, Copy, PartialEq, Eq, Structural)]
pub enum StepAction {
    Run(usize),
    Emit,
    Drop,
}

/// An ordered stage chain with bounded input and output queues, worker
/// driven, with per-stage metrics and a per-stage retry budget.
pub struct Pipeline {
    pub config: PipelineConfig,
    pub stages: Vec<Stage>,
    pub is_running: bool,
    pub processed_frames: u64,
    pub errors: u64,
    pub stage_metrics: Vec<(String, StageMetrics)>,
    pub start_time: i64,
    pub input_queue: BoundedQueue<PipelineData>,
    pub output_queue: BoundedQueue<PipelineData>,
}

impl Pipeline {
    pub open spec fn wf(&self) -> bool {
        &&& pipeline_config_valid(self.config)
        &&& self.stages@.len() == self.config.stages@.len()
        &&& forall|i: int|
            0 <= i < self.stages@.len() ==> (#[trigger] self.stages@[i]).spec_config()@
                == self.config.stages@[i]@ && self.stages@[i].spec_stage_type()
                == self.config.stages@[i].stage_type
        &&& self.input_queue.wf()
        &&& self.output_queue.wf()
        &&& self.input_queue.capacity == self.config.buffer_size
        &&& self.output_queue.capacity == self.config.buffer_size
    }

    /// Build a pipeline: the five stage variants are built once from the
    /// ordered configuration. Duplicate stage names, a zero worker count
    /// or a zero buffer size are invalid and fail construction.
    pub fn new_at(config: PipelineConfig, now: i64) -> (r: Result<Pipeline, CoreError>)
        ensures
            (r is Ok) == pipeline_config_valid(config),
            r is Err ==> r->Err_0 is Config,
            r is Ok ==> {
                let p = r->Ok_0;
                &&& p.wf()
                &&& p.config == config
                &&& !p.is_running
                &&& p.processed_frames == 0
                &&& p.errors == 0
                &&& metric_views(p.stage_metrics@).len() == 0
                &&& p.start_time == now
                &&& p.input_queue.items@.len() == 0 && !p.input_queue.closed
                &&& p.output_queue.items@.len() == 0 && !p.output_queue.closed
            },
    {
        if config.max_parallel_stages < 1 || config.buffer_size < 1 {
            return Err(CoreError::Config("pipeline needs workers and buffer space".to_owned()));
        }
        let n = config.stages.len();
        let mut i: usize = 0;
        while i < n
            invariant
                i <= n,
                n == config.stages@.len(),
                forall|a: int, b: int|
                    0 <= a < b < n && a < i ==> (#[trigger] config.stages@[a])@.name != (
                    #[trigger] config.stages@[b])@.name,
            decreases n - i,
        {
            let mut j: usize = i + 1;
            while j < n
                invariant
                    i < j <= n || (i >= n),
                    i < n,
                    n == config.stages@.len(),
                    forall|b: int|
                        i < b < j ==> (#[trigger] config.stages@[b])@.name != config.stages@[
                            i as int
                        ]@.name,
                decreases n - j,
            {
                if config.stages[i].name.eq(&config.stages[j].name) {
                    return Err(CoreError::Config("stage names must be unique".to_owned()));
                }
                j += 1;
            }
            i += 1;
        }
        let mut stages: Vec<Stage> = Vec::new();
        let mut k: usize = 0;
        while k < n
            invariant
                k <= n,
                n == config.stages@.len(),
                stages@.len() == k,
                forall|a: int|
                    0 <= a < k ==> (#[trigger] stages@[a]).spec_config()@ == config.stages@[a]@
                        && stages@[a].spec_stage_type() == config.stages@[a].stage_type,
            decreases n - k,
        {
            let sc = config.stages[k].clone();
            let stage = create_stage(sc);
            stages.push(stage);
            k += 1;
        }
        let input_queue = BoundedQueue::new(config.buffer_size);
        let output_queue = BoundedQueue::new(config.buffer_size);
        Ok(
            Pipeline {
                config,
                stages,
                is_running: false,
                processed_frames: 0,
                errors: 0,
                stage_metrics: Vec::new(),
                start_time: now,
                input_queue,
                output_queue,
            },
        )
    }

    /// Start the pipeline: idempotent; when already running nothing
    /// changes. Spawning the worker tasks is the runtime wrapper's job.
    pub fn start_at(&mut self, now: i64)
        requires
            old(self).wf(),
        ensures
            final(self).wf(),
            old(self).is_running ==> *final(self) == *old(self),
            !old(self).is_running ==> *final(self) == (Pipeline {
                is_running: true,
                start_time: now,
                ..*old(self)
            }),
            final(self).is_running,
    {
        if self.is_running {
            return ;
        }
        self.is_running = true;
        self.start_time = now;
    }

    /// Stop the pipeline: idempotent; when not running nothing changes,
    /// otherwise the running flag is cleared and the input queue closed.
    /// Items already queued can still be drained.
    pub fn stop(&mut self)
        requires
            old(self).wf(),
        ensures
            final(self).wf(),
            !old(self).is_running ==> *final(self) == *old(self),
            old(self).is_running ==> {
                &&& final(self).is_running == false
                &&& final(self).input_queue.closed
                &&& final(self).input_queue.items == old(self).input_queue.items
                &&& final(self).input_queue.capacity == old(self).input_queue.capacity
                &&& final(self).output_queue == old(self).output_queue
                &&& final(self).config == old(self).config
                &&& final(self).stages == old(self).stages
                &&& final(self).processed_frames == old(self).processed_frames
                &&& final(self).errors == old(self).errors
                &&& final(self).stage_metrics == old(self).stage_metrics
                &&& final(self).start_time == old(self).start_time
            },
            !final(self).is_running,
    {
        if !self.is_running {
            return ;
        }
        self.is_running = false;
        self.input_queue.close();
    }

    /// First enabled stage at or after `from`.
    fn next_enabled_from(&self, from: usize) -> (r: usize)
        requires
            self.wf(),
            from <= self.config.stages@.len(),
        ensures
            r == spec_next_enabled(self.config.stages@, from as int),
            from <= r <= self.config.stages@.len(),
            r < self.config.stages@.len() ==> self.config.stages@[r as int].enabled,
    {
        let n = self.config.stages.len();
        let mut idx = from;
        while idx < n && !self.config.stages[idx].enabled
            invariant
                from <= idx <= n,
                n == self.config.stages@.len(),
                spec_next_enabled(self.config.stages@, from as int) == spec_next_enabled(
                    self.config.stages@,
                    idx as int,
                ),
            decreases n - idx,
        {
            idx += 1;
        }
        idx
    }

    /// Admit one item into the chain: it starts at the first enabled
    /// stage; with no enabled stage it is emitted unchanged.
    pub fn begin_item(&self) -> (r: (ItemRun, StepAction))
        requires
            self.wf(),
        ensures
            r.0.stage_idx == spec_next_enabled(self.config.stages@, 0),
            r.0.failures == 0,
            r.0.stage_idx < self.config.stages@.len() ==> r.1 == StepAction::Run(r.0.stage_idx),
            r.0.stage_idx >= self.config.stages@.len() ==> r.1 == StepAction::Emit,
    {
        let idx = self.next_enabled_from(0);
        let run = ItemRun { stage_idx: idx, failures: 0 };
        if idx < self.config.stages.len() {
            (run, StepAction::Run(idx))
        } else {
            (run, StepAction::Emit)
        }
    }

    /// A stage attempt succeeded: its processed counter advances and the
    /// item moves to the next enabled stage; past the last one it is
    /// emitted and the pipeline's processed-frames counter advances.
    pub fn on_stage_success(&mut self, run: &mut ItemRun, now: i64) -> (r: StepAction)
        requires
            old(self).wf(),
            old(run).stage_idx < old(self).config.stages@.len(),
        ensures
            final(self).wf(),
            final(self).config == old(self).config,
            final(self).stages == old(self).stages,
            final(self).is_running == old(self).is_running,
            final(self).errors == old(self).errors,
            final(self).start_time == old(self).start_time,
            final(self).input_queue == old(self).input_queue,
            final(self).output_queue == old(self).output_queue,
            ({
                let ms = metric_views(old(self).stage_metrics@);
                let name = old(self).config.stages@[old(run).stage_idx as int]@.name;
                let k = spec_find_metric(ms, name, 0);
                if k >= 0 {
                    metric_views(final(self).stage_metrics@) == ms.update(
                        k,
                        (ms[k].0, spec_bump(ms[k].1, true, now as int)),
                    )
                } else {
                    metric_views(final(self).stage_metrics@) == ms.push(
                        (name, spec_bump(spec_fresh_metrics(), true, now as int)),
                    )
                }
            }),
            final(run).stage_idx == spec_next_enabled(
                old(self).config.stages@,
                old(run).stage_idx + 1,
            ),
            final(run).failures == 0,
            final(run).stage_idx < old(self).config.stages@.len() ==> r == StepAction::Run(
                final(run).stage_idx,
            ) && final(self).processed_frames == old(self).processed_frames,
            final(run).stage_idx >= old(self).config.stages@.len() ==> r == StepAction::Emit
                && final(self).processed_frames == if old(self).processed_frames < u64::MAX {
                old(self).processed_frames + 1
            } else {
                u64::MAX as int
            },
    {
        let name = self.config.stages[run.stage_idx].name.clone();
        bump_metrics(&mut self.stage_metrics, &name, true, now);
        let n = self.config.stages.len();
        proof {
            assert(run.stage_idx < n);
        }
        let next = self.next_enabled_from(run.stage_idx + 1);
        run.stage_idx = next;
        run.failures = 0;
        if next < self.config.stages.len() {
            StepAction::Run(next)
        } else {
            if self.processed_frames < u64::MAX {
                self.processed_frames = self.processed_frames + 1;
            }
            StepAction::Emit
        }
    }

    /// A stage attempt failed (a timeout counts as a failure): the
    /// stage's error counter advances; while the retry budget lasts the
    /// same stage is re-run on the same input, afterwards the item is
    /// dropped and the pipeline's error counter advances.
    pub fn on_stage_failure(&mut self, run: &mut ItemRun, now: i64) -> (r: StepAction)
        requires
            old(self).wf(),
            old(run).stage_idx < old(self).config.stages@.len(),
        ensures
            final(self).wf(),
            final(self).config == old(self).config,
            final(self).stages == old(self).stages,
            final(self).is_running == old(self).is_running,
            final(self).processed_frames == old(self).processed_frames,
            final(self).start_time == old(self).start_time,
            final(self).input_queue == old(self).input_queue,
            final(self).output_queue == old(self).output_queue,
            ({
                let ms = metric_views(old(self).stage_metrics@);
                let name = old(self).config.stages@[old(run).stage_idx as int]@.name;
                let k = spec_find_metric(ms, name, 0);
                if k >= 0 {
                    metric_views(final(self).stage_metrics@) == ms.update(
                        k,
                        (ms[k].0, spec_bump(ms[k].1, false, now as int)),
                    )
                } else {
                    metric_views(final(self).stage_metrics@) == ms.push(
                        (name, spec_bump(spec_fresh_metrics(), false, now as int)),
                    )
                }
            }),
            final(run).stage_idx == old(run).stage_idx,
            old(run).failures < old(self).config.retry_count ==> {
                &&& r == StepAction::Run(old(run).stage_idx)
                &&& final(run).failures == old(run).failures + 1
                &&& final(self).errors == old(self).errors
            },
            old(run).failures >= old(self).config.retry_count ==> {
                &&& r == StepAction::Drop
                &&& final(run).failures == old(run).failures
                &&& final(self).errors == if old(self).errors < u64::MAX {
                    old(self).errors + 1
                } else {
                    u64::MAX as int
                }
            },
    {
        let name = self.config.stages[run.stage_idx].name.clone();
        bump_metrics(&mut self.stage_metrics, &name, false, now);
        if run.failures < self.config.retry_count {
            run.failures = run.failures + 1;
            StepAction::Run(run.stage_idx)
        } else {
            if self.errors < u64::MAX {
                self.errors = self.errors + 1;
            }
            StepAction::Drop
        }
    }

    /// Offer one frame to the input queue without blocking, wrapped as a
    /// fresh pipeline item. A full queue hands the item back (`Full`), so
    /// an asynchronous caller suspends and retries; once the pipeline is
    /// stopped the queue is closed and the item comes back with `Closed`.
    pub fn process_at(&mut self, frame: Frame, now: i64) -> (r: PushOutcome<PipelineData>)
        requires
            old(self).wf(),
        ensures
            final(self).wf(),
            final(self).config == old(self).config,
            final(self).stages == old(self).stages,
            final(self).is_running == old(self).is_running,
            final(self).output_queue == old(self).output_queue,
            final(self).stage_metrics == old(self).stage_metrics,
            final(self).processed_frames == old(self).processed_frames,
            final(self).errors == old(self).errors,
            final(self).start_time == old(self).start_time,
            final(self).input_queue.closed == old(self).input_queue.closed,
            final(self).input_queue.capacity == old(self).input_queue.capacity,
            old(self).input_queue.closed ==> (r matches PushOutcome::Closed(d) && d.frame == frame)
                && final(self).input_queue == old(self).input_queue,
            !old(self).input_queue.closed && old(self).input_queue.items@.len() >= old(self).config.buffer_size ==> (r matches PushOutcome::Full(d) && d.frame == frame) && final(self).input_queue == old(self).input_queue,
            !old(self).input_queue.closed && old(self).input_queue.items@.len() < old(self).config.buffer_size ==> r is Accepted && final(self).input_queue.items@.len() == old(self).input_queue.items@.len() + 1 && ({
                let d = final(self).input_queue.items@.last();
                &&& final(self).input_queue.items@.drop_last() == old(self).input_queue.items@
                &&& d.frame == frame
                &&& d.detections@.len() == 0
                &&& d.analysis is None
                &&& d.metadata@.len() == 0
                &&& d.timestamp == now
            }),
    {
        let data = PipelineData {
            frame,
            detections: Vec::new(),
            analysis: None,
            metadata: Vec::new(),
            timestamp: now,
        };
        let r = self.input_queue.try_push(data);
        proof {
            if !old(self).input_queue.closed && old(self).input_queue.items@.len() < old(self).config.buffer_size {
                assert(self.input_queue.items@.drop_last() =~= old(self).input_queue.items@);
            }
        }
        r
    }

    /// Worker side: take the oldest queued item, if any.
    pub fn take_item(&mut self) -> (r: Option<PipelineData>)
        requires
            old(self).wf(),
        ensures
            final(self).wf(),
            final(self).config == old(self).config,
            final(self).stages == old(self).stages,
            final(self).output_queue == old(self).output_queue,
            final(self).is_running == old(self).is_running,
            final(self).stage_metrics == old(self).stage_metrics,
            final(self).processed_frames == old(self).processed_frames,
            final(self).errors == old(self).errors,
            final(self).start_time == old(self).start_time,
            final(self).input_queue.closed == old(self).input_queue.closed,
            final(self).input_queue.capacity == old(self).input_queue.capacity,
            old(self).input_queue.items@.len() == 0 ==> r is None && final(self).input_queue
                == old(self).input_queue,
            old(self).input_queue.items@.len() > 0 ==> (r matches Some(d) && d == old(self).input_queue.items@[0]) && final(self).input_queue.items@ == old(self).input_queue.items@.drop_first(),
    {
        self.input_queue.try_pop()
    }

    /// Worker side: offer one fully processed item to the output queue
    /// without blocking.
    pub fn emit_result(&mut self, data: PipelineData) -> (r: PushOutcome<PipelineData>)
        requires
            old(self).wf(),
        ensures
            final(self).wf(),
            final(self).config == old(self).config,
            final(self).stages == old(self).stages,
            final(self).is_running == old(self).is_running,
            final(self).input_queue == old(self).input_queue,
            final(self).stage_metrics == old(self).stage_metrics,
            final(self).processed_frames == old(self).processed_frames,
            final(self).errors == old(self).errors,
            final(self).start_time == old(self).start_time,
            final(self).output_queue.closed == old(self).output_queue.closed,
            final(self).output_queue.capacity == old(self).output_queue.capacity,
            old(self).output_queue.closed ==> (r matches PushOutcome::Closed(d) && d == data)
                && final(self).output_queue == old(self).output_queue,
            !old(self).output_queue.closed && old(self).output_queue.items@.len() >= old(self).config.buffer_size ==> (r matches PushOutcome::Full(d) && d == data) && final(self).output_queue == old(self).output_queue,
            !old(self).output_queue.closed && old(self).output_queue.items@.len() < old(self).config.buffer_size ==> r is Accepted && final(self).output_queue.items@ == old(self).output_queue.items@.push(data),
    {
        self.output_queue.try_push(data)
    }

    /// Consumer side: take the oldest emitted item, if any. Because
    /// several workers share the input queue, completion order across
    /// items is not guaranteed to match arrival order.
    pub fn get_result(&mut self) -> (r: Option<PipelineData>)
        requires
            old(self).wf(),
        ensures
            final(self).wf(),
            final(self).config == old(self).config,
            final(self).stages == old(self).stages,
            final(self).input_queue == old(self).input_queue,
            final(self).is_running == old(self).is_running,
            final(self).stage_metrics == old(self).stage_metrics,
            final(self).processed_frames == old(self).processed_frames,
            final(self).errors == old(self).errors,
            final(self).start_time == old(self).start_time,
            final(self).output_queue.closed == old(self).output_queue.closed,
            final(self).output_queue.capacity == old(self).output_queue.capacity,
            old(self).output_queue.items@.len() == 0 ==> r is None && final(self).output_queue
                == old(self).output_queue,
            old(self).output_queue.items@.len() > 0 ==> (r matches Some(d) && d == old(self).output_queue.items@[0]) && final(self).output_queue.items@ == old(self).output_queue.items@.drop_first(),
    {
        self.output_queue.try_pop()
    }

    /// Aggregate counters as of `now`, with a clone of the per-stage
    /// metrics; the uptime is the time since the last start, never
    /// negative.
    pub fn get_metrics_at(&self, now: i64) -> (r: PipelineMetrics)
        ensures
            r.processed_frames == self.processed_frames,
            r.errors == self.errors,
            metric_views(r.stage_metrics@) == metric_views(self.stage_metrics@),
            r.is_running == self.is_running,
            r.uptime == if now < self.start_time {
                0
            } else if now - self.start_time <= i64::MAX {
                now - self.start_time
            } else {
                i64::MAX as int
            },
    {
        let mut stage_metrics: Vec<(String, StageMetrics)> = Vec::new();
        let mut i: usize = 0;
        proof {
            assert(metric_views(stage_metrics@) =~= Seq::<(Seq<char>, StageMetrics)>::empty());
            assert(metric_views(self.stage_metrics@.take(0)) =~= Seq::<
                (Seq<char>, StageMetrics),
            >::empty());
        }
        while i < self.stage_metrics.len()
            invariant
                i <= self.stage_metrics@.len(),
                metric_views(stage_metrics@) == metric_views(self.stage_metrics@.take(i as int)),
            decreases self.stage_metrics@.len() - i,
        {
            let ghost pre = stage_metrics@;
            let name = self.stage_metrics[i].0.clone();
            let m = self.stage_metrics[i].1;
            stage_metrics.push((name, m));
            proof {
                pre.lemma_push_map_commute(metric_pair_view_fn(), stage_metrics@.last());
                self.stage_metrics@.take(i as int).lemma_push_map_commute(
                    metric_pair_view_fn(),
                    self.stage_metrics@[i as int],
                );
                assert(self.stage_metrics@.take(i as int + 1) =~= self.stage_metrics@.take(
                    i as int,
                ).push(self.stage_metrics@[i as int]));
                assert(metric_pair_view_fn()(stage_metrics@.last()) == metric_pair_view_fn()(
                    self.stage_metrics@[i as int],
                ));
            }
            i += 1;
        }
        proof {
            assert(self.stage_metrics@.take(self.stage_metrics@.len() as int)
                =~= self.stage_metrics@);
        }
        let uptime: i64 = if now >= self.start_time {
            if self.start_time >= 0 || now <= self.start_time + i64::MAX {
                now - self.start_time
            } else {
                i64::MAX
            }
        } else {
            0
        };
        PipelineMetrics {
            processed_frames: self.processed_frames,
            errors: self.errors,
            stage_metrics,
            uptime,
            is_running: self.is_running,
        }
    }
}


impl Pipeline {
    /// Build a pipeline, reading the wall clock for the initial start
    /// time.
    pub fn new(config: PipelineConfig) -> (r: Result<Pipeline, CoreError>)
        ensures
            (r is Ok) == pipeline_config_valid(config),
            r is Err ==> r->Err_0 is Config,
            r is Ok ==> {
                let p = r->Ok_0;
                &&& p.wf()
                &&& p.config == config
                &&& !p.is_running
                &&& p.processed_frames == 0
                &&& p.errors == 0
                &&& metric_views(p.stage_metrics@).len() == 0
                &&& p.input_queue.items@.len() == 0 && !p.input_queue.closed
                &&& p.output_queue.items@.len() == 0 && !p.output_queue.closed
            },
    {
        let now = crate::clock::now_timestamp();
        Pipeline::new_at(config, now)
    }

    /// Start the pipeline, recording the wall clock as the start time;
    /// idempotent.
    pub fn start(&mut self)
        requires
            old(self).wf(),
        ensures
            final(self).wf(),
            old(self).is_running ==> *final(self) == *old(self),
            final(self).is_running,
            final(self).config == old(self).config,
            final(self).stages == old(self).stages,
            final(self).processed_frames == old(self).processed_frames,
            final(self).errors == old(self).errors,
            final(self).stage_metrics == old(self).stage_metrics,
            final(self).input_queue == old(self).input_queue,
            final(self).output_queue == old(self).output_queue,
    {
        let now = crate::clock::now_timestamp();
        self.start_at(now);
    }

    /// Offer one frame to the input queue without blocking, stamped with
    /// the wall clock.
    pub fn process(&mut self, frame: Frame) -> (r: PushOutcome<PipelineData>)
        requires
            old(self).wf(),
        ensures
            final(self).wf(),
            final(self).config == old(self).config,
            final(self).is_running == old(self).is_running,
            final(self).output_queue == old(self).output_queue,
            final(self).stage_metrics == old(self).stage_metrics,
            final(self).processed_frames == old(self).processed_frames,
            final(self).errors == old(self).errors,
            old(self).input_queue.closed ==> (r matches PushOutcome::Closed(d) && d.frame == frame)
                && final(self).input_queue == old(self).input_queue,
            !old(self).input_queue.closed && old(self).input_queue.items@.len() >= old(
                self,
            ).config.buffer_size ==> (r matches PushOutcome::Full(d) && d.frame == frame)
                && final(self).input_queue == old(self).input_queue,
            !old(self).input_queue.closed && old(self).input_queue.items@.len() < old(
                self,
            ).config.buffer_size ==> r is Accepted && final(self).input_queue.items@.len() == old(
                self,
            ).input_queue.items@.len() + 1 && ({
                let d = final(self).input_queue.items@.last();
                &&& final(self).input_queue.items@.drop_last() == old(self).input_queue.items@
                &&& d.frame == frame
                &&& d.detections@.len() == 0
                &&& d.analysis is None
                &&& d.metadata@.len() == 0
            }),
    {
        let now = crate::clock::now_timestamp();
        self.process_at(frame, now)
    }

    /// Aggregate counters as of the wall clock.
    pub fn get_metrics(&self) -> (r: PipelineMetrics)
        ensures
            r.processed_frames == self.processed_frames,
            r.errors == self.errors,
            metric_views(r.stage_metrics@) == metric_views(self.stage_metrics@),
            r.is_running == self.is_running,
            r.uptime >= 0,
    {
        let now = crate::clock::now_timestamp();
        self.get_metrics_at(now)
    }
}

} // verus!
