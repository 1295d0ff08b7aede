use vision_core::engine::{Engine, EngineConfig};
use vision_core::errors::CoreError;
use vision_core::pipeline::{
    Pipeline, PipelineConfig, StageConfig, StageType, StepAction, PipelineStage, PreProcessStage,
};
use vision_core::processor::{Frame, FrameMetadata};
use vision_core::queue::{BoundedQueue, PushOutcome};
use vision_core::state::{
    EngineState, EngineStatus, ErrorInfo, ResourceState, StateConfig, StateManager,
};

fn frame(id: u64, timestamp: i64) -> Frame {
    Frame {
        id,
        timestamp,
        metadata: FrameMetadata {
            width: 640,
            height: 480,
            channels: 3,
            format: "RGB".to_string(),
            source: "test".to_string(),
        },
    }
}

fn stage(name: &str, stage_type: StageType, enabled: bool) -> StageConfig {
    StageConfig { name: name.to_string(), stage_type, enabled, params: Vec::new() }
}

fn pipeline_config(stages: Vec<StageConfig>, retry_count: u32) -> PipelineConfig {
    PipelineConfig { stages, max_parallel_stages: 1, buffer_size: 4, timeout_ms: 100, retry_count }
}

fn engine_state(status: EngineStatus, frames_processed: u64) -> EngineState {
    EngineState { status, frames_processed, fps: 0, uptime: 0, last_active: 0 }
}

fn state_config(history_size: usize) -> StateConfig {
    StateConfig {
        history_size,
        snapshot_interval: 5,
        persist_state: false,
        state_file: "state.json".to_string(),
    }
}

fn error_info(n: u64) -> ErrorInfo {
    ErrorInfo {
        timestamp: n as i64,
        error_type: "inference".to_string(),
        message: format!("failure {}", n),
        context: Vec::new(),
    }
}

#[test]
fn bounded_queue_is_fifo_and_bounded() {
    let mut q: BoundedQueue<u32> = BoundedQueue::new(2);
    assert!(q.is_empty());
    assert!(!q.is_closed());
    assert!(matches!(q.try_push(1), PushOutcome::Accepted));
    assert!(matches!(q.try_push(2), PushOutcome::Accepted));
    assert_eq!(q.len(), 2);
    assert!(q.is_full());
    assert!(matches!(q.try_push(3), PushOutcome::Full(3)));
    assert_eq!(q.try_pop(), Some(1));
    assert!(matches!(q.try_push(3), PushOutcome::Accepted));
    assert_eq!(q.try_pop(), Some(2));
    assert_eq!(q.try_pop(), Some(3));
    assert_eq!(q.try_pop(), None);
}

#[test]
fn closed_queue_refuses_pushes_but_drains() {
    let mut q: BoundedQueue<u32> = BoundedQueue::new(2);
    assert!(matches!(q.try_push(7), PushOutcome::Accepted));
    q.close();
    assert!(matches!(q.try_push(8), PushOutcome::Closed(8)));
    assert_eq!(q.try_pop(), Some(7));
    assert_eq!(q.try_pop(), None);
}

#[test]
fn engine_rejects_invalid_configuration() {
    let mut config = EngineConfig::default();
    config.processing_threads = 0;
    match Engine::new_at(config, 0) {
        Err(CoreError::Config(_)) => (),
        _ => panic!("a zero worker count must fail construction"),
    }
}

#[test]
fn engine_default_configuration() {
    let config = EngineConfig::default();
    assert_eq!(config.max_batch_size, 32);
    assert_eq!(config.processing_threads, 4);
    assert!(config.enable_gpu);
    assert_eq!(config.model_precision, "fp16");
    assert_eq!(config.detection_threshold, 500);
    assert!(config.enable_analytics);
}

#[test]
fn engine_start_is_idempotent() {
    let mut engine = Engine::new_at(EngineConfig::default(), 0).unwrap();
    engine.start_at(100);
    let first = engine.get_metrics_at(150);
    assert!(first.is_running);
    assert_eq!(first.uptime, 50);
    engine.start_at(140);
    let second = engine.get_metrics_at(150);
    // the second start left the state unchanged
    assert_eq!(second, first);
}

#[test]
fn engine_stop_before_start_is_a_noop() {
    let mut engine = Engine::new_at(EngineConfig::default(), 0).unwrap();
    engine.stop();
    assert!(!engine.get_metrics_at(1).is_running);
    // the queue was not closed by the no-op stop
    assert!(matches!(engine.process_frame(frame(1, 0)), PushOutcome::Accepted));
}

#[test]
fn full_input_queue_pushes_back_until_drained() {
    let mut config = EngineConfig::default();
    config.max_batch_size = 1;
    config.processing_threads = 1;
    let mut engine = Engine::new_at(config, 0).unwrap();
    engine.start_at(0);
    assert!(matches!(engine.process_frame(frame(1, 0)), PushOutcome::Accepted));
    // the queue holds one frame: the second offer is refused until the
    // worker dequeues the first
    match engine.process_frame(frame(2, 0)) {
        PushOutcome::Full(f) => assert_eq!(f.id, 2),
        _ => panic!("the second frame must wait for queue space"),
    }
    let taken = engine.take_frame().expect("a frame is queued");
    assert_eq!(taken.id, 1);
    assert!(matches!(engine.process_frame(frame(2, 0)), PushOutcome::Accepted));
}

#[test]
fn stopped_engine_refuses_new_frames() {
    let mut engine = Engine::new_at(EngineConfig::default(), 0).unwrap();
    engine.start_at(0);
    assert!(matches!(engine.process_frame(frame(1, 0)), PushOutcome::Accepted));
    engine.stop();
    match engine.process_frame(frame(2, 0)) {
        PushOutcome::Closed(f) => assert_eq!(f.id, 2),
        _ => panic!("a stopped engine must refuse new frames"),
    }
    // frames already queued still drain
    assert_eq!(engine.take_frame().map(|f| f.id), Some(1));
}

#[test]
fn engine_counts_results_and_errors() {
    let mut engine = Engine::new_at(EngineConfig::default(), 0).unwrap();
    engine.start_at(0);
    let result = vision_core::engine::ProcessingResult {
        frame_id: 1,
        detections: Vec::new(),
        analysis: None,
        inference: None,
        timestamp: 10,
    };
    assert!(matches!(engine.push_result(result), PushOutcome::Accepted));
    engine.record_processing_error("inference failed".to_string());
    let metrics = engine.get_metrics_at(1);
    assert_eq!(metrics.frames_processed, 1);
    assert_eq!(metrics.error_count, 1);
    assert_eq!(engine.last_error.as_deref(), Some("inference failed"));
    assert_eq!(engine.get_result().map(|r| r.frame_id), Some(1));
    assert!(engine.get_result().is_none());
}

#[test]
fn pipeline_rejects_duplicate_stage_names() {
    let config = pipeline_config(
        vec![stage("same", StageType::PreProcess, true), stage("same", StageType::Detection, true)],
        0,
    );
    match Pipeline::new_at(config, 0) {
        Err(CoreError::Config(_)) => (),
        _ => panic!("duplicate stage names must fail construction"),
    }
}

#[test]
fn retry_budget_lets_a_flaky_stage_succeed() {
    // stages [PreProcess, Detection] with two retries: the detection
    // stage fails twice, then succeeds; the item reaches the output and
    // the detection stage counts one success and two errors
    let config = pipeline_config(
        vec![stage("pre", StageType::PreProcess, true), stage("det", StageType::Detection, true)],
        2,
    );
    let mut pipeline = Pipeline::new_at(config, 0).unwrap();
    let (mut run, action) = pipeline.begin_item();
    assert_eq!(action, StepAction::Run(0));
    assert_eq!(pipeline.on_stage_success(&mut run, 10), StepAction::Run(1));
    assert_eq!(pipeline.on_stage_failure(&mut run, 11), StepAction::Run(1));
    assert_eq!(pipeline.on_stage_failure(&mut run, 12), StepAction::Run(1));
    assert_eq!(pipeline.on_stage_success(&mut run, 13), StepAction::Emit);
    let metrics = pipeline.get_metrics_at(20);
    let det = metrics
        .stage_metrics
        .iter()
        .find(|(name, _)| name == "det")
        .map(|(_, m)| *m)
        .expect("the detection stage has metrics");
    assert_eq!(det.processed, 1);
    assert_eq!(det.errors, 2);
    let pre = metrics
        .stage_metrics
        .iter()
        .find(|(name, _)| name == "pre")
        .map(|(_, m)| *m)
        .expect("the preprocess stage has metrics");
    assert_eq!(pre.processed, 1);
    assert_eq!(pre.errors, 0);
    assert_eq!(metrics.processed_frames, 1);
    assert_eq!(metrics.errors, 0);
}

#[test]
fn exhausted_retries_drop_the_item() {
    let config = pipeline_config(vec![stage("only", StageType::Inference, true)], 1);
    let mut pipeline = Pipeline::new_at(config, 0).unwrap();
    let (mut run, action) = pipeline.begin_item();
    assert_eq!(action, StepAction::Run(0));
    assert_eq!(pipeline.on_stage_failure(&mut run, 1), StepAction::Run(0));
    assert_eq!(pipeline.on_stage_failure(&mut run, 2), StepAction::Drop);
    let metrics = pipeline.get_metrics_at(3);
    assert_eq!(metrics.stage_metrics[0].1.errors, 2);
    assert_eq!(metrics.stage_metrics[0].1.processed, 0);
    assert_eq!(metrics.processed_frames, 0);
    assert_eq!(metrics.errors, 1);
}

#[test]
fn disabled_stages_are_skipped_at_run_time() {
    let config = pipeline_config(
        vec![
            stage("off", StageType::PreProcess, false),
            stage("on", StageType::Analysis, true),
            stage("off2", StageType::PostProcess, false),
        ],
        0,
    );
    let mut pipeline = Pipeline::new_at(config, 0).unwrap();
    let (mut run, action) = pipeline.begin_item();
    assert_eq!(action, StepAction::Run(1));
    assert_eq!(pipeline.on_stage_success(&mut run, 1), StepAction::Emit);
    let metrics = pipeline.get_metrics_at(2);
    assert_eq!(metrics.stage_metrics.len(), 1);
    assert_eq!(metrics.stage_metrics[0].0, "on");
}

#[test]
fn pipeline_start_and_stop_are_idempotent() {
    let config = pipeline_config(vec![stage("pre", StageType::PreProcess, true)], 0);
    let mut pipeline = Pipeline::new_at(config, 0).unwrap();
    pipeline.stop();
    assert!(!pipeline.is_running);
    // the no-op stop did not close the intake
    assert!(matches!(pipeline.process_at(frame(1, 0), 0), PushOutcome::Accepted));
    pipeline.start_at(50);
    pipeline.start_at(60);
    assert_eq!(pipeline.get_metrics_at(70).uptime, 20);
    pipeline.stop();
    match pipeline.process_at(frame(2, 0), 1) {
        PushOutcome::Closed(d) => assert_eq!(d.frame.id, 2),
        _ => panic!("a stopped pipeline must refuse new items"),
    }
}

#[test]
fn pipeline_items_flow_through_the_queues() {
    let config = pipeline_config(vec![stage("pre", StageType::PreProcess, true)], 0);
    let mut pipeline = Pipeline::new_at(config, 0).unwrap();
    assert!(matches!(pipeline.process_at(frame(9, 90), 91), PushOutcome::Accepted));
    let item = pipeline.take_item().expect("an item is queued");
    assert_eq!(item.frame.id, 9);
    assert_eq!(item.timestamp, 91);
    assert!(item.detections.is_empty());
    assert!(item.analysis.is_none());
    assert!(matches!(pipeline.emit_result(item), PushOutcome::Accepted));
    assert_eq!(pipeline.get_result().map(|d| d.frame.id), Some(9));
    assert!(pipeline.get_result().is_none());
}

#[test]
fn stage_trait_objects_pass_items_through() {
    let pre = PreProcessStage::new(stage("pre", StageType::PreProcess, true));
    assert_eq!(pre.name(), "pre");
    assert_eq!(pre.stage_type(), StageType::PreProcess);
    let data = vision_core::pipeline::PipelineData {
        frame: frame(4, 40),
        detections: Vec::new(),
        analysis: None,
        metadata: Vec::new(),
        timestamp: 40,
    };
    let out = pre.process(data).expect("the built-in stage passes items through");
    assert_eq!(out.frame.id, 4);
}

#[test]
fn fresh_state_manager_starts_zeroed() {
    let manager = StateManager::new(state_config(3)).unwrap();
    let state = manager.get_current_state();
    assert_eq!(state.engine_state.status, EngineStatus::Stopped);
    assert_eq!(state.engine_state.frames_processed, 0);
    assert_eq!(state.engine_state.fps, 0);
    assert_eq!(state.engine_state.uptime, 0);
    assert!(state.pipeline_state.active_stages.is_empty());
    assert!(state.pipeline_state.stage_metrics.is_empty());
    assert_eq!(state.pipeline_state.queue_size, 0);
    assert_eq!(state.pipeline_state.processing_latency, 0);
    assert_eq!(state.resource_state.gpu_usage, 0);
    assert_eq!(state.resource_state.memory_usage, 0);
    assert_eq!(state.resource_state.cpu_usage, 0);
    assert_eq!(state.resource_state.disk_usage, 0);
    assert_eq!(state.resource_state.temperature, 0);
    assert_eq!(state.error_state.error_count, 0);
    assert!(state.error_state.last_error.is_none());
    assert!(state.error_state.error_history.is_empty());
    assert!(manager.get_state_history().is_empty());
}

#[test]
fn state_manager_rejects_a_nonpositive_interval() {
    let mut config = state_config(3);
    config.snapshot_interval = 0;
    match StateManager::new_at(config, 0) {
        Err(CoreError::Config(_)) => (),
        _ => panic!("a non-positive snapshot interval must fail construction"),
    }
}

#[test]
fn history_keeps_exactly_the_last_snapshots() {
    // history_size = 3 and five snapshots: exactly the last three
    // remain, in chronological order
    let mut manager = StateManager::new_at(state_config(3), 0).unwrap();
    for t in 1..=5i64 {
        manager.update_engine_state_at(engine_state(EngineStatus::Running, t as u64), t);
    }
    let history = manager.get_state_history();
    assert_eq!(history.len(), 3);
    let timestamps: Vec<i64> = history.iter().map(|s| s.timestamp).collect();
    assert_eq!(timestamps, vec![3, 4, 5]);
    assert_eq!(history[2].state.engine_state.frames_processed, 5);
}

#[test]
fn error_log_keeps_the_most_recent_hundred() {
    // 105 recorded errors: the count reaches 105 while the log keeps
    // only the most recent 100
    let mut manager = StateManager::new_at(state_config(3), 0).unwrap();
    for n in 1..=105u64 {
        manager.record_error(error_info(n));
    }
    let state = manager.get_current_state();
    assert_eq!(state.error_state.error_count, 105);
    assert_eq!(state.error_state.error_history.len(), 100);
    assert_eq!(state.error_state.error_history[0].message, "failure 6");
    assert_eq!(state.error_state.error_history[99].message, "failure 105");
    assert_eq!(state.error_state.last_error.as_ref().unwrap().message, "failure 105");
}

#[test]
fn partition_updates_leave_the_others_alone() {
    let mut manager = StateManager::new_at(state_config(2), 0).unwrap();
    manager.update_engine_state_at(engine_state(EngineStatus::Running, 7), 1);
    manager.update_resource_state(ResourceState {
        gpu_usage: 800,
        memory_usage: 300,
        cpu_usage: 450,
        disk_usage: 100,
        temperature: 55000,
    });
    let state = manager.get_current_state();
    assert_eq!(state.engine_state.frames_processed, 7);
    assert_eq!(state.resource_state.gpu_usage, 800);
    // only engine-state updates take snapshots
    assert_eq!(manager.get_state_history().len(), 1);
}

#[test]
fn monitor_tick_advances_uptime_only_while_running() {
    let mut manager = StateManager::new_at(state_config(2), 0).unwrap();
    let sampled = ResourceState {
        gpu_usage: 10,
        memory_usage: 20,
        cpu_usage: 30,
        disk_usage: 40,
        temperature: 50,
    };
    manager.apply_monitor_tick(sampled);
    assert_eq!(manager.get_current_state().engine_state.uptime, 0);
    manager.update_engine_state_at(engine_state(EngineStatus::Running, 1), 1);
    manager.apply_monitor_tick(sampled);
    manager.apply_monitor_tick(sampled);
    let state = manager.get_current_state();
    // two ticks of the five-second interval
    assert_eq!(state.engine_state.uptime, 10);
    assert_eq!(state.resource_state.cpu_usage, 30);
}

#[test]
fn error_kinds_are_labelled() {
    assert_eq!(CoreError::QueueClosed.kind_label(), "queue_closed");
    assert_eq!(CoreError::ClassResolution { class_id: 3 }.kind_label(), "class_resolution");
    assert_eq!(CoreError::Config("bad".to_string()).kind_label(), "config");
}
