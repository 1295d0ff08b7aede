//! Scene, motion, behavior and pattern analysis over frames and their
//! detections. The heavy per-pixel heuristics (optical flow, tracking)
//! belong to an external image-processing collaborator; the core owns the
//! dispatch over the enabled analyzer kinds and the assembly of the
//! per-frame `Analysis`, with the same placeholder heuristics the rest of
//! the system is specified against.

use vstd::prelude::*;

use crate::detector::Detection;
use crate::errors::CoreError;
use crate::geometry::BBox;
use crate::processor::Frame;

verus! {

#[derive(Debug, Clone)]
pub struct AnalyzerConfig {
    pub enabled_analyzers: Vec<AnalyzerType>,
    pub scene_threshold: u32,
    pub motion_threshold: u32,
    pub tracking_config: TrackingConfig,
    pub batch_size: usize,
}

#[derive(Debug, Clone)]
pub enum AnalyzerType {
    Scene,
    Motion,
    Behavior,
    Pattern,
    Custom(String),
}

/// `min_confidence` is a fraction of `UNIT_SCALE`.
#[derive(Debug, Clone, Copy, PartialEq, Eq, Structural)]
pub struct TrackingConfig {
    pub max_objects: usize,
    pub min_confidence: u32,
    pub max_age: usize,
    pub min_hits: usize,
}

/// Per-frame analysis; each part is present exactly when its analyzer
/// kind is enabled.
#[derive(Debug)]
pub struct Analysis {
    pub frame_id: u64,
    pub timestamp: i64,
    pub scene_info: Option<SceneInfo>,
    pub motion_info: Option<MotionInfo>,
    pub behavior_info: Option<BehaviorInfo>,
    pub pattern_info: Option<PatternInfo>,
}

/// `confidence` is a fraction of `UNIT_SCALE`.
#[derive(Debug)]
pub struct SceneInfo {
    pub scene_type: String,
    pub confidence: u32,
    pub objects: Vec<String>,
    pub lighting: String,
    pub composition: String,
}

/// `global_motion` is a fraction of `UNIT_SCALE`.
#[derive(Debug)]
pub struct MotionInfo {
    pub motion_vectors: Vec<MotionVector>,
    pub global_motion: u32,
    pub motion_areas: Vec<BBox>,
}

#[derive(Debug)]
pub struct BehaviorInfo {
    pub activities: Vec<Activity>,
    pub interactions: Vec<Interaction>,
    pub anomalies: Vec<Anomaly>,
}

#[derive(Debug)]
pub struct PatternInfo {
    pub patterns: Vec<Pattern>,
    pub repetitions: Vec<Repetition>,
    pub temporal_info: TemporalInfo,
}

/// `magnitude` is in pixel thousandths, `direction` in millidegrees.
#[derive(Debug, Clone, Copy, PartialEq, Eq, Structural)]
pub struct MotionVector {
    pub start_x: i64,
    pub start_y: i64,
    pub end_x: i64,
    pub end_y: i64,
    pub magnitude: u64,
    pub direction: u64,
}

/// `confidence` is a fraction of `UNIT_SCALE`; `duration` in milliseconds.
#[derive(Debug)]
pub struct Activity {
    pub action_type: String,
    pub confidence: u32,
    pub duration: u64,
    pub objects_involved: Vec<String>,
}

/// `duration` is in milliseconds.
#[derive(Debug)]
pub struct Interaction {
    pub interaction_type: String,
    pub objects: Vec<String>,
    pub duration: u64,
}

/// `confidence` is a fraction of `UNIT_SCALE`.
#[derive(Debug)]
pub struct Anomaly {
    pub anomaly_type: String,
    pub confidence: u32,
    pub description: String,
}

/// `confidence` is a fraction of `UNIT_SCALE`.
#[derive(Debug)]
pub struct Pattern {
    pub pattern_type: String,
    pub confidence: u32,
    pub description: String,
}

/// `frequency` is in events per thousand seconds; `duration` in
/// milliseconds.
#[derive(Debug)]
pub struct Repetition {
    pub event_type: String,
    pub frequency: u64,
    pub duration: u64,
}

/// `duration` is in milliseconds.
#[derive(Debug, Clone, Copy, PartialEq, Eq, Structural)]
pub struct TemporalInfo {
    pub start_time: i64,
    pub end_time: i64,
    pub duration: u64,
}

pub open spec fn has_scene(s: Seq<AnalyzerType>) -> bool {
    exists|i: int| 0 <= i < s.len() && (#[trigger] s[i]) is Scene
}

pub open spec fn has_motion(s: Seq<AnalyzerType>) -> bool {
    exists|i: int| 0 <= i < s.len() && (#[trigger] s[i]) is Motion
}

pub open spec fn has_behavior(s: Seq<AnalyzerType>) -> bool {
    exists|i: int| 0 <= i < s.len() && (#[trigger] s[i]) is Behavior
}

pub open spec fn has_pattern(s: Seq<AnalyzerType>) -> bool {
    exists|i: int| 0 <= i < s.len() && (#[trigger] s[i]) is Pattern
}

/// The class name of a detection, as a function value.
pub open spec fn det_class_name_fn() -> spec_fn(Detection) -> Seq<char> {
    |d: Detection| d.class_name@
}

/// What a returned `Analysis` holds for a frame and its detections, given
/// the enabled analyzer kinds: each part is present exactly when its kind
/// is enabled, and holds the documented placeholder content.
pub open spec fn spec_analysis_ok(
    a: Analysis,
    enabled: Seq<AnalyzerType>,
    frame_id: int,
    ts: int,
    detections: Seq<Detection>,
) -> bool {
    &&& a.frame_id == frame_id
    &&& a.timestamp == ts
    &&& (a.scene_info is Some) == has_scene(enabled)
    &&& (a.scene_info matches Some(s) ==> {
        &&& s.scene_type@ == "indoor"@
        &&& s.confidence == 950
        &&& s.objects@.map_values(crate::state::string_view_fn()) == detections.map_values(
            det_class_name_fn(),
        )
        &&& s.lighting@ == "bright"@
        &&& s.composition@ == "balanced"@
    })
    &&& (a.motion_info is Some) == has_motion(enabled)
    &&& (a.motion_info matches Some(m) ==> {
        &&& m.motion_vectors@.len() == 0
        &&& m.global_motion == 0
        &&& m.motion_areas@.len() == 0
    })
    &&& (a.behavior_info is Some) == has_behavior(enabled)
    &&& (a.behavior_info matches Some(b) ==> {
        &&& b.activities@.len() == 0
        &&& b.interactions@.len() == 0
        &&& b.anomalies@.len() == 0
    })
    &&& (a.pattern_info is Some) == has_pattern(enabled)
    &&& (a.pattern_info matches Some(p) ==> {
        &&& p.patterns@.len() == 0
        &&& p.repetitions@.len() == 0
        &&& p.temporal_info == (TemporalInfo { start_time: ts as i64, end_time: ts as i64, duration: 0 })
    })
}

/// Dispatches the enabled analyzer kinds over a frame and its detections.
#[derive(Debug)]
pub struct Analyzer {
    pub config: AnalyzerConfig,
    pub previous_frame_id: Option<u64>,
    pub motion_history: Vec<MotionInfo>,
    pub behavior_history: Vec<BehaviorInfo>,
}

impl Analyzer {
    pub fn new(config: AnalyzerConfig) -> (r: Result<Analyzer, CoreError>)
        ensures
            r is Ok,
            r->Ok_0.config == config,
            r->Ok_0.previous_frame_id is None,
            r->Ok_0.motion_history@.len() == 0,
            r->Ok_0.behavior_history@.len() == 0,
    {
        Ok(
            Analyzer {
                config,
                previous_frame_id: None,
                motion_history: Vec::new(),
                behavior_history: Vec::new(),
            },
        )
    }

    fn analyze_scene(&self, detections: &Vec<Detection>) -> (r: SceneInfo)
        ensures
            r.scene_type@ == "indoor"@,
            r.confidence == 950,
            r.objects@.map_values(crate::state::string_view_fn()) == detections@.map_values(
                det_class_name_fn(),
            ),
            r.lighting@ == "bright"@,
            r.composition@ == "balanced"@,
    {
        let mut objects: Vec<String> = Vec::new();
        let mut i: usize = 0;
        proof {
            assert(objects@.map_values(crate::state::string_view_fn()) =~= Seq::<
                Seq<char>,
            >::empty());
            assert(detections@.take(0).map_values(det_class_name_fn()) =~= Seq::<
                Seq<char>,
            >::empty());
        }
        while i < detections.len()
            invariant
                i <= detections@.len(),
                objects@.map_values(crate::state::string_view_fn()) == detections@.take(
                    i as int,
                ).map_values(det_class_name_fn()),
            decreases detections@.len() - i,
        {
            let ghost pre = objects@;
            objects.push(detections[i].class_name.clone());
            proof {
                pre.lemma_push_map_commute(crate::state::string_view_fn(), objects@.last());
                detections@.take(i as int).lemma_push_map_commute(
                    det_class_name_fn(),
                    detections@[i as int],
                );
                assert(detections@.take(i as int + 1) =~= detections@.take(i as int).push(
                    detections@[i as int],
                ));
                assert(crate::state::string_view_fn()(objects@.last()) == det_class_name_fn()(
                    detections@[i as int],
                ));
            }
            i += 1;
        }
        proof {
            assert(detections@.take(detections@.len() as int) =~= detections@);
        }
        SceneInfo {
            scene_type: "indoor".to_owned(),
            confidence: 950,
            objects,
            lighting: "bright".to_owned(),
            composition: "balanced".to_owned(),
        }
    }

    fn analyze_motion(&self, _frame: &Frame) -> (r: MotionInfo)
        ensures
            r.motion_vectors@.len() == 0,
            r.global_motion == 0,
            r.motion_areas@.len() == 0,
    {
        MotionInfo { motion_vectors: Vec::new(), global_motion: 0, motion_areas: Vec::new() }
    }

    fn analyze_behavior(&self, _frame: &Frame, _detections: &Vec<Detection>) -> (r: BehaviorInfo)
        ensures
            r.activities@.len() == 0,
            r.interactions@.len() == 0,
            r.anomalies@.len() == 0,
    {
        BehaviorInfo { activities: Vec::new(), interactions: Vec::new(), anomalies: Vec::new() }
    }

    fn analyze_patterns(&self, frame: &Frame, _detections: &Vec<Detection>) -> (r: PatternInfo)
        ensures
            r.patterns@.len() == 0,
            r.repetitions@.len() == 0,
            r.temporal_info == (TemporalInfo {
                start_time: frame.timestamp,
                end_time: frame.timestamp,
                duration: 0,
            }),
    {
        PatternInfo {
            patterns: Vec::new(),
            repetitions: Vec::new(),
            temporal_info: TemporalInfo {
                start_time: frame.timestamp,
                end_time: frame.timestamp,
                duration: 0,
            },
        }
    }

    fn run_custom_analysis(
        &self,
        _name: &String,
        _frame: &Frame,
        _detections: &Vec<Detection>,
    ) -> (r: Result<(), CoreError>)
        ensures
            r is Ok,
    {
        Ok(())
    }

    /// Run every enabled analyzer kind over one frame and its detections
    /// and assemble the per-frame analysis; the frame is remembered as the
    /// previous frame for motion analysis.
    pub fn analyze(&mut self, frame: &Frame, detections: &Vec<Detection>) -> (r: Result<
        Analysis,
        CoreError,
    >)
        ensures
            r is Ok,
            spec_analysis_ok(
                r->Ok_0,
                old(self).config.enabled_analyzers@,
                frame.id as int,
                frame.timestamp as int,
                detections@,
            ),
            final(self).config == old(self).config,
            final(self).previous_frame_id == Some(frame.id),
            final(self).motion_history == old(self).motion_history,
            final(self).behavior_history == old(self).behavior_history,
    {
        let ghost enabled = self.config.enabled_analyzers@;
        let mut scene_info: Option<SceneInfo> = None;
        let mut motion_info: Option<MotionInfo> = None;
        let mut behavior_info: Option<BehaviorInfo> = None;
        let mut pattern_info: Option<PatternInfo> = None;
        let mut i: usize = 0;
        while i < self.config.enabled_analyzers.len()
            invariant
                i <= enabled.len(),
                enabled == self.config.enabled_analyzers@,
                self == old(self),
                (scene_info is Some) == has_scene(enabled.take(i as int)),
                scene_info matches Some(s) ==> {
                    &&& s.scene_type@ == "indoor"@
                    &&& s.confidence == 950
                    &&& s.objects@.map_values(crate::state::string_view_fn())
                        == detections@.map_values(det_class_name_fn())
                    &&& s.lighting@ == "bright"@
                    &&& s.composition@ == "balanced"@
                },
                (motion_info is Some) == has_motion(enabled.take(i as int)),
                motion_info matches Some(m) ==> {
                    &&& m.motion_vectors@.len() == 0
                    &&& m.global_motion == 0
                    &&& m.motion_areas@.len() == 0
                },
                (behavior_info is Some) == has_behavior(enabled.take(i as int)),
                behavior_info matches Some(b) ==> {
                    &&& b.activities@.len() == 0
                    &&& b.interactions@.len() == 0
                    &&& b.anomalies@.len() == 0
                },
                (pattern_info is Some) == has_pattern(enabled.take(i as int)),
                pattern_info matches Some(p) ==> {
                    &&& p.patterns@.len() == 0
                    &&& p.repetitions@.len() == 0
                    &&& p.temporal_info == (TemporalInfo {
                        start_time: frame.timestamp,
                        end_time: frame.timestamp,
                        duration: 0,
                    })
                },
            decreases enabled.len() - i,
        {
            proof {
                assert(enabled.take(i as int + 1).drop_last() =~= enabled.take(i as int));
                assert(enabled.take(i as int + 1).last() == enabled[i as int]);
            }
            match &self.config.enabled_analyzers[i] {
                AnalyzerType::Scene => {
                    scene_info = Some(self.analyze_scene(detections));
                },
                AnalyzerType::Motion => {
                    motion_info = Some(self.analyze_motion(frame));
                },
                AnalyzerType::Behavior => {
                    behavior_info = Some(self.analyze_behavior(frame, detections));
                },
                AnalyzerType::Pattern => {
                    pattern_info = Some(self.analyze_patterns(frame, detections));
                },
                AnalyzerType::Custom(name) => {
                    let _ = self.run_custom_analysis(name, frame, detections);
                },
            }
            proof {
                lemma_has_take_succ(enabled, i as int);
            }
            i += 1;
        }
        proof {
            assert(enabled.take(enabled.len() as int) =~= enabled);
        }
        self.previous_frame_id = Some(frame.id);
        Ok(
            Analysis {
                frame_id: frame.id,
                timestamp: frame.timestamp,
                scene_info,
                motion_info,
                behavior_info,
                pattern_info,
            },
        )
    }

    /// Analyze a batch of frames sequentially, pairing each frame with
    /// its detections; with lists of unequal length the extra entries of
    /// the longer one are ignored.
    pub fn analyze_batch(&mut self, frames: &Vec<Frame>, detections: &Vec<Vec<Detection>>) -> (r:
        Result<Vec<Analysis>, CoreError>)
        ensures
            r is Ok,
            r->Ok_0@.len() == if frames@.len() <= detections@.len() {
                frames@.len()
            } else {
                detections@.len()
            },
            forall|k: int|
                0 <= k < r->Ok_0@.len() ==> spec_analysis_ok(
                    #[trigger] r->Ok_0@[k],
                    old(self).config.enabled_analyzers@,
                    frames@[k].id as int,
                    frames@[k].timestamp as int,
                    detections@[k]@,
                ),
            final(self).config == old(self).config,
    {
        let ghost cfg = self.config;
        let n: usize = if frames.len() <= detections.len() {
            frames.len()
        } else {
            detections.len()
        };
        let mut analyses: Vec<Analysis> = Vec::new();
        let mut k: usize = 0;
        while k < n
            invariant
                k <= n,
                n <= frames@.len(),
                n <= detections@.len(),
                self.config == cfg,
                cfg == old(self).config,
                analyses@.len() == k,
                forall|j: int|
                    0 <= j < k ==> spec_analysis_ok(
                        #[trigger] analyses@[j],
                        cfg.enabled_analyzers@,
                        frames@[j].id as int,
                        frames@[j].timestamp as int,
                        detections@[j]@,
                    ),
            decreases n - k,
        {
            let analysis = match self.analyze(&frames[k], &detections[k]) {
                Ok(a) => a,
                Err(e) => {
                    return Err(e);
                },
            };
            analyses.push(analysis);
            k += 1;
        }
        Ok(analyses)
    }
}

/// Extending the inspected prefix by one analyzer kind enables exactly
/// that kind in addition.
proof fn lemma_has_take_succ(s: Seq<AnalyzerType>, i: int)
    requires
        0 <= i < s.len(),
    ensures
        has_scene(s.take(i + 1)) == (has_scene(s.take(i)) || s[i] is Scene),
        has_motion(s.take(i + 1)) == (has_motion(s.take(i)) || s[i] is Motion),
        has_behavior(s.take(i + 1)) == (has_behavior(s.take(i)) || s[i] is Behavior),
        has_pattern(s.take(i + 1)) == (has_pattern(s.take(i)) || s[i] is Pattern),
{
    let a = s.take(i);
    let b = s.take(i + 1);
    assert(b[i] == s[i]);
    assert forall|j: int| 0 <= j < a.len() implies a[j] == b[j] by {}
    if has_scene(b) {
        let j = choose|j: int| 0 <= j < b.len() && b[j] is Scene;
        if j < i {
            assert(a[j] is Scene);
        }
    }
    if has_scene(a) {
        let j = choose|j: int| 0 <= j < a.len() && a[j] is Scene;
        assert(b[j] is Scene);
    }
    if has_motion(b) {
        let j = choose|j: int| 0 <= j < b.len() && b[j] is Motion;
        if j < i {
            assert(a[j] is Motion);
        }
    }
    if has_motion(a) {
        let j = choose|j: int| 0 <= j < a.len() && a[j] is Motion;
        assert(b[j] is Motion);
    }
    if has_behavior(b) {
        let j = choose|j: int| 0 <= j < b.len() && b[j] is Behavior;
        if j < i {
            assert(a[j] is Behavior);
        }
    }
    if has_behavior(a) {
        let j = choose|j: int| 0 <= j < a.len() && a[j] is Behavior;
        assert(b[j] is Behavior);
    }
    if has_pattern(b) {
        let j = choose|j: int| 0 <= j < b.len() && b[j] is Pattern;
        if j < i {
            assert(a[j] is Pattern);
        }
    }
    if has_pattern(a) {
        let j = choose|j: int| 0 <= j < a.len() && a[j] is Pattern;
        assert(b[j] is Pattern);
    }
}

} // verus!
