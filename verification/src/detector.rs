//! Multi-model object detection: interpreting raw model output rows,
//! resolving class names, pooling detections across models and applying
//! duplicate suppression.
//!
//! The numeric model-execution backend is an external collaborator: it is
//! handed an opaque tensor and returns raw output rows. This module takes
//! those rows as plain values and is verified from there on.

use vstd::prelude::*;

use crate::errors::CoreError;
use crate::geometry::BBox;
use crate::processor::Frame;
use crate::suppression::{pairwise_nonoverlap, sorted_desc, spec_suppress, views_of};
use crate::UNIT_SCALE;

verus! {

/// Configuration of a detector: thresholds are fractions of `UNIT_SCALE`.
#[derive(Debug, Clone)]
pub struct DetectorConfig {
    pub confidence_threshold: u32,
    pub nms_threshold: u32,
    pub device: DetectionDevice,
    pub batch_size: usize,
    pub enabled_detectors: Vec<DetectorType>,
    pub model_configs: Vec<ModelConfig>,
}

#[derive(Debug, Clone)]
pub enum DetectorType {
    Object,
    Face,
    Person,
    Custom(String),
}

#[derive(Debug, Clone, Copy, PartialEq, Eq, Structural)]
pub enum DetectionDevice {
    CPU,
    CUDA,
    OpenCL,
}

#[derive(Debug, Clone)]
pub struct ModelConfig {
    pub name: String,
    pub path: String,
    pub framework: ModelFramework,
    pub input_width: u32,
    pub input_height: u32,
    pub class_names: Vec<String>,
}

#[derive(Debug, Clone)]
pub enum ModelFramework {
    ONNX,
    TensorRT,
    OpenVINO,
    Custom(String),
}

/// One raw output row of a detection model: a candidate box, its
/// objectness score (a fraction of `UNIT_SCALE`) and a class index.
#[derive(Debug, Clone, Copy, PartialEq, Eq, Structural)]
pub struct RawDetection {
    pub x: u32,
    pub y: u32,
    pub width: u32,
    pub height: u32,
    pub objectness: u32,
    pub class_id: usize,
}

/// One detection attributed to a frame. Immutable once returned.
#[derive(Debug)]
pub struct Detection {
    pub bbox: BBox,
    pub class_id: usize,
    pub class_name: String,
    pub confidence: u32,
    pub frame_id: u64,
    pub timestamp: i64,
}

/// The mathematical value of a `Detection`.
pub struct DetectionView {
    pub bbox: BBox,
    pub class_id: int,
    pub class_name: Seq<char>,
    pub confidence: int,
    pub frame_id: int,
    pub timestamp: int,
}

impl View for Detection {
    type V = DetectionView;

    open spec fn view(&self) -> DetectionView {
        DetectionView {
            bbox: self.bbox,
            class_id: self.class_id as int,
            class_name: self.class_name@,
            confidence: self.confidence as int,
            frame_id: self.frame_id as int,
            timestamp: self.timestamp as int,
        }
    }
}

impl Clone for Detection {
    fn clone(&self) -> (r: Self)
        ensures
            r@ == self@,
    {
        Detection {
            bbox: self.bbox,
            class_id: self.class_id,
            class_name: self.class_name.clone(),
            confidence: self.confidence,
            frame_id: self.frame_id,
            timestamp: self.timestamp,
        }
    }
}

/// A detector configuration is valid when both thresholds are fractions of
/// `UNIT_SCALE`.
pub open spec fn detector_config_valid(c: DetectorConfig) -> bool {
    c.confidence_threshold <= UNIT_SCALE && c.nms_threshold <= UNIT_SCALE
}

/// The class names of the first configured model, as character sequences.
/// Multi-model deployments share one taxonomy, so the first enabled
/// model's list resolves every class id.
pub open spec fn spec_class_names(c: DetectorConfig) -> Seq<Seq<char>> {
    if c.model_configs.len() == 0 {
        Seq::empty()
    } else {
        c.model_configs[0].class_names@.map_values(|s: String| s@)
    }
}

/// Rows whose objectness exceeds the confidence threshold are kept.
pub open spec fn row_kept(threshold: int) -> spec_fn(RawDetection) -> bool {
    |r: RawDetection| r.objectness > threshold
}

/// Every kept row's class id resolves against `n_names` class names.
pub open spec fn spec_rows_resolvable(rows: Seq<RawDetection>, threshold: int, n_names: int) -> bool {
    forall|i: int|
        0 <= i < rows.len() && (#[trigger] rows[i]).objectness > threshold ==> rows[i].class_id
            < n_names
}

/// The detection a kept row stands for.
pub open spec fn spec_row_detection(
    row: RawDetection,
    names: Seq<Seq<char>>,
    frame_id: int,
    ts: int,
) -> DetectionView {
    DetectionView {
        bbox: BBox { x: row.x, y: row.y, width: row.width, height: row.height },
        class_id: row.class_id as int,
        class_name: names[row.class_id as int],
        confidence: row.objectness as int,
        frame_id: frame_id,
        timestamp: ts,
    }
}

/// The detection a kept row stands for, as a function value.
pub open spec fn row_detection_fn(names: Seq<Seq<char>>, frame_id: int, ts: int) -> spec_fn(
    RawDetection,
) -> DetectionView {
    |r: RawDetection| spec_row_detection(r, names, frame_id, ts)
}

/// Interpretation of one model's raw output rows: keep the rows above the
/// threshold, in order, and resolve each kept row's class name.
pub open spec fn spec_interpret(
    rows: Seq<RawDetection>,
    threshold: int,
    names: Seq<Seq<char>>,
    frame_id: int,
    ts: int,
) -> Seq<DetectionView> {
    rows.filter(row_kept(threshold)).map_values(row_detection_fn(names, frame_id, ts))
}

/// All models' interpreted outputs, pooled in model order.
pub open spec fn spec_pooled(
    outputs: Seq<Seq<RawDetection>>,
    threshold: int,
    names: Seq<Seq<char>>,
    frame_id: int,
    ts: int,
) -> Seq<DetectionView>
    decreases outputs.len(),
{
    if outputs.len() == 0 {
        Seq::empty()
    } else {
        spec_interpret(outputs[0], threshold, names, frame_id, ts) + spec_pooled(
            outputs.drop_first(),
            threshold,
            names,
            frame_id,
            ts,
        )
    }
}

/// Every kept row of every model resolves.
pub open spec fn spec_outputs_resolvable(
    outputs: Seq<Seq<RawDetection>>,
    threshold: int,
    n_names: int,
) -> bool {
    forall|k: int|
        0 <= k < outputs.len() ==> spec_rows_resolvable(#[trigger] outputs[k], threshold, n_names)
}

/// Runs the configured detection models' outputs through interpretation,
/// pooling and duplicate suppression. Model loading and inference belong
/// to the numeric backend collaborator; the detector receives each model's
/// raw output rows.
#[derive(Debug)]
pub struct Detector {
    pub config: DetectorConfig,
    pub detection_count: u64,
}

impl Detector {
    /// Build a detector from a validated configuration; an invalid
    /// configuration fails construction entirely.
    pub fn new(config: DetectorConfig) -> (r: Result<Detector, CoreError>)
        ensures
            (r is Ok) == detector_config_valid(config),
            r is Ok ==> r->Ok_0.config == config && r->Ok_0.detection_count == 0,
            r is Err ==> r->Err_0 is Config,
    {
        if config.confidence_threshold > UNIT_SCALE || config.nms_threshold > UNIT_SCALE {
            return Err(
                CoreError::Config("detector thresholds must not exceed UNIT_SCALE".to_owned()),
            );
        }
        Ok(Detector { config, detection_count: 0 })
    }

    /// Resolve a class id against the first configured model's class list.
    fn get_class_name(&self, class_id: usize) -> (r: Result<String, CoreError>)
        ensures
            (r is Ok) == (self.config.model_configs.len() > 0 && class_id < spec_class_names(
                self.config,
            ).len()),
            r is Ok ==> r->Ok_0@ == spec_class_names(self.config)[class_id as int],
            r is Err ==> (r->Err_0 matches CoreError::ClassResolution { class_id: c } && c
                == class_id),
    {
        if self.config.model_configs.len() == 0 {
            return Err(CoreError::ClassResolution { class_id });
        }
        let names = &self.config.model_configs[0].class_names;
        if class_id >= names.len() {
            return Err(CoreError::ClassResolution { class_id });
        }
        proof {
            assert(spec_class_names(self.config)[class_id as int] == names@[class_id as int]@);
        }
        Ok(names[class_id].clone())
    }

    /// Interpret one model's raw output rows for a frame: keep rows whose
    /// objectness exceeds the confidence threshold and resolve their class
    /// names; an unresolvable kept row drops the frame with a recoverable
    /// error.
    pub fn process_outputs(&self, rows: &Vec<RawDetection>, frame_id: u64, timestamp: i64) -> (r:
        Result<Vec<Detection>, CoreError>)
        ensures
            (r is Ok) == spec_rows_resolvable(
                rows@,
                self.config.confidence_threshold as int,
                spec_class_names(self.config).len() as int,
            ),
            r is Ok ==> views_of(r->Ok_0@) == spec_interpret(
                rows@,
                self.config.confidence_threshold as int,
                spec_class_names(self.config),
                frame_id as int,
                timestamp as int,
            ),
            r is Err ==> r->Err_0 is ClassResolution,
    {
        let ghost t = self.config.confidence_threshold as int;
        let ghost names = spec_class_names(self.config);
        let ghost kp = row_kept(t);
        let mut out: Vec<Detection> = Vec::new();
        let mut i: usize = 0;
        proof {
            reveal(Seq::filter);
            assert(rows@.take(0) =~= Seq::<RawDetection>::empty());
        }
        while i < rows.len()
            invariant
                i <= rows@.len(),
                t == self.config.confidence_threshold as int,
                names == spec_class_names(self.config),
                kp == row_kept(t),
                spec_rows_resolvable(rows@.take(i as int), t, names.len() as int),
                views_of(out@) == spec_interpret(
                    rows@.take(i as int),
                    t,
                    names,
                    frame_id as int,
                    timestamp as int,
                ),
            decreases rows@.len() - i,
        {
            let row = rows[i];
            proof {
                reveal(Seq::filter);
                assert(rows@.take(i as int + 1).drop_last() =~= rows@.take(i as int));
                assert(rows@.take(i as int + 1).last() == rows@[i as int]);
            }
            if row.objectness > self.config.confidence_threshold {
                let class_name = match self.get_class_name(row.class_id) {
                    Ok(n) => n,
                    Err(e) => {
                        proof {
                            assert(rows@[i as int].objectness > t);
                            assert(!(rows@[i as int].class_id < names.len()));
                        }
                        return Err(e);
                    },
                };
                let d = Detection {
                    bbox: BBox { x: row.x, y: row.y, width: row.width, height: row.height },
                    class_id: row.class_id,
                    class_name,
                    confidence: row.objectness,
                    frame_id,
                    timestamp,
                };
                let ghost out_pre = out@;
                out.push(d);
                proof {
                    let f = row_detection_fn(names, frame_id as int, timestamp as int);
                    assert(d@ == f(rows@[i as int]));
                    assert(kp(rows@[i as int]));
                    assert(rows@.take(i as int + 1).filter(kp) =~= rows@.take(i as int).filter(
                        kp,
                    ).push(rows@[i as int]));
                    out_pre.lemma_push_map_commute(crate::suppression::detection_view_fn(), d);
                    rows@.take(i as int).filter(kp).lemma_push_map_commute(f, rows@[i as int]);
                    assert(views_of(out@) == views_of(out_pre).push(d@));
                    assert(views_of(out@) =~= spec_interpret(
                        rows@.take(i as int + 1),
                        t,
                        names,
                        frame_id as int,
                        timestamp as int,
                    ));
                }
            } else {
                proof {
                    assert(!kp(rows@[i as int]));
                    assert(rows@.take(i as int + 1).filter(kp) =~= rows@.take(i as int).filter(
                        kp,
                    ));
                    assert(views_of(out@) =~= spec_interpret(
                        rows@.take(i as int + 1),
                        t,
                        names,
                        frame_id as int,
                        timestamp as int,
                    ));
                }
            }
            i += 1;
        }
        proof {
            assert(rows@.take(rows@.len() as int) =~= rows@);
        }
        Ok(out)
    }

    /// Detect objects in one frame: interpret each configured model's raw
    /// output rows, pool the kept detections across models, apply duplicate
    /// suppression, and return the survivors sorted by descending
    /// confidence. Every returned detection's confidence exceeds the
    /// configured threshold.
    pub fn detect(&mut self, frame: &Frame, model_outputs: &Vec<Vec<RawDetection>>) -> (r: Result<
        Vec<Detection>,
        CoreError,
    >)
        ensures
            final(self).config == old(self).config,
            (r is Ok) == spec_outputs_resolvable(
                model_outputs@.map_values(|v: Vec<RawDetection>| v@),
                old(self).config.confidence_threshold as int,
                spec_class_names(old(self).config).len() as int,
            ),
            r is Ok ==> views_of(r->Ok_0@) == spec_suppress(
                spec_pooled(
                    model_outputs@.map_values(|v: Vec<RawDetection>| v@),
                    old(self).config.confidence_threshold as int,
                    spec_class_names(old(self).config),
                    frame.id as int,
                    frame.timestamp as int,
                ),
                old(self).config.nms_threshold as int,
            ),
            r is Ok ==> sorted_desc(views_of(r->Ok_0@)) && pairwise_nonoverlap(
                views_of(r->Ok_0@),
                old(self).config.nms_threshold as int,
            ),
            r is Ok ==> forall|k: int|
                0 <= k < r->Ok_0@.len() ==> (#[trigger] r->Ok_0@[k]@).confidence > old(
                    self,
                ).config.confidence_threshold as int,
            r is Ok ==> final(self).detection_count == if old(self).detection_count + r->Ok_0@.len()
                <= u64::MAX {
                old(self).detection_count + r->Ok_0@.len()
            } else {
                u64::MAX as int
            },
            r is Err ==> r->Err_0 is ClassResolution && final(self).detection_count == old(
                self,
            ).detection_count,
    {
        let ghost t = self.config.confidence_threshold as int;
        let ghost nms_t = self.config.nms_threshold as int;
        let ghost names = spec_class_names(self.config);
        let ghost seqs = model_outputs@.map_values(|v: Vec<RawDetection>| v@);
        let mut pooled: Vec<Detection> = Vec::new();
        let mut k: usize = 0;
        proof {
            assert(spec_pooled(seqs.take(0), t, names, frame.id as int, frame.timestamp as int)
                =~= Seq::<DetectionView>::empty());
            assert(views_of(pooled@) =~= Seq::<DetectionView>::empty());
        }
        while k < model_outputs.len()
            invariant
                k <= model_outputs@.len(),
                t == self.config.confidence_threshold as int,
                nms_t == self.config.nms_threshold as int,
                names == spec_class_names(self.config),
                seqs == model_outputs@.map_values(|v: Vec<RawDetection>| v@),
                seqs.len() == model_outputs@.len(),
                spec_outputs_resolvable(seqs.take(k as int), t, names.len() as int),
                views_of(pooled@) == spec_pooled(
                    seqs.take(k as int),
                    t,
                    names,
                    frame.id as int,
                    frame.timestamp as int,
                ),
            decreases model_outputs@.len() - k,
        {
            let rows = &model_outputs[k];
            let mut interpreted = match self.process_outputs(rows, frame.id, frame.timestamp) {
                Ok(v) => v,
                Err(e) => {
                    proof {
                        assert(seqs[k as int] == rows@);
                        assert(!spec_rows_resolvable(seqs[k as int], t, names.len() as int));
                    }
                    return Err(e);
                },
            };
            let ghost pooled_pre = views_of(pooled@);
            let ghost add = views_of(interpreted@);
            let mut j: usize = 0;
            while j < interpreted.len()
                invariant
                    j <= interpreted@.len(),
                    add == views_of(interpreted@),
                    views_of(pooled@) == pooled_pre + add.take(j as int),
                decreases interpreted@.len() - j,
            {
                let d = interpreted[j].clone();
                let ghost vec_pre = pooled@;
                proof {
                    assert(d@ == add[j as int]);
                    assert(add.take(j as int + 1) =~= add.take(j as int).push(add[j as int]));
                    assert((pooled_pre + add.take(j as int)).push(d@) =~= pooled_pre + add.take(
                        j as int + 1,
                    ));
                }
                pooled.push(d);
                proof {
                    vec_pre.lemma_push_map_commute(crate::suppression::detection_view_fn(), d);
                    assert(views_of(pooled@) == views_of(vec_pre).push(d@));
                }
                j += 1;
            }
            proof {
                assert(add.take(add.len() as int) =~= add);
            }
            proof {
                lemma_pooled_snoc(
                    seqs,
                    k as int,
                    t,
                    names,
                    frame.id as int,
                    frame.timestamp as int,
                );
                assert(views_of(pooled@) =~= spec_pooled(
                    seqs.take(k as int + 1),
                    t,
                    names,
                    frame.id as int,
                    frame.timestamp as int,
                ));
            }
            k += 1;
        }
        proof {
            assert(seqs.take(seqs.len() as int) =~= seqs);
        }
        let ghost pooled_views = views_of(pooled@);
        let result = crate::suppression::suppress(pooled, self.config.nms_threshold);
        proof {
            crate::suppression::lemma_suppression_sorted(pooled_views, nms_t);
            crate::suppression::lemma_suppression_pairwise(pooled_views, nms_t);
            crate::suppression::lemma_suppression_bounds(pooled_views, nms_t);
            lemma_pooled_confident(seqs, t, names, frame.id as int, frame.timestamp as int);
            assert forall|kk: int| 0 <= kk < result@.len() implies (
            #[trigger] result@[kk]@).confidence > t by {
                assert(views_of(result@)[kk] == result@[kk]@);
                assert(views_of(result@).contains(views_of(result@)[kk]));
                assert(pooled_views.contains(result@[kk]@));
            }
        }
        let n = result.len() as u64;
        if self.detection_count <= u64::MAX - n {
            self.detection_count = self.detection_count + n;
        } else {
            self.detection_count = u64::MAX;
        }
        Ok(result)
    }

    /// Detect objects in a batch of frames, sequentially, one raw output
    /// set per frame. An unresolvable frame is a recoverable per-frame
    /// failure: it is dropped (its entry stays empty) and processing
    /// continues with the next frame.
    pub fn detect_batch(
        &mut self,
        frames: &Vec<Frame>,
        outputs_per_frame: &Vec<Vec<Vec<RawDetection>>>,
    ) -> (r: Result<Vec<Vec<Detection>>, CoreError>)
        requires
            frames@.len() == outputs_per_frame@.len(),
        ensures
            final(self).config == old(self).config,
            final(self).detection_count >= old(self).detection_count,
            r is Ok,
            r->Ok_0@.len() == frames@.len(),
            forall|k: int|
                0 <= k < frames@.len() ==> {
                    let seqs = outputs_per_frame@[k]@.map_values(|v: Vec<RawDetection>| v@);
                    if spec_outputs_resolvable(
                        seqs,
                        old(self).config.confidence_threshold as int,
                        spec_class_names(old(self).config).len() as int,
                    ) {
                        views_of((#[trigger] r->Ok_0@[k])@) == spec_suppress(
                            spec_pooled(
                                seqs,
                                old(self).config.confidence_threshold as int,
                                spec_class_names(old(self).config),
                                frames@[k].id as int,
                                frames@[k].timestamp as int,
                            ),
                            old(self).config.nms_threshold as int,
                        )
                    } else {
                        r->Ok_0@[k]@.len() == 0
                    }
                },
    {
        let ghost cfg = self.config;
        let mut results: Vec<Vec<Detection>> = Vec::new();
        let mut k: usize = 0;
        while k < frames.len()
            invariant
                k <= frames@.len(),
                frames@.len() == outputs_per_frame@.len(),
                self.config == cfg,
                cfg == old(self).config,
                self.detection_count >= old(self).detection_count,
                results@.len() == k,
                forall|j: int|
                    0 <= j < k ==> {
                        let seqs = outputs_per_frame@[j]@.map_values(|v: Vec<RawDetection>| v@);
                        if spec_outputs_resolvable(
                            seqs,
                            cfg.confidence_threshold as int,
                            spec_class_names(cfg).len() as int,
                        ) {
                            views_of((#[trigger] results@[j])@) == spec_suppress(
                                spec_pooled(
                                    seqs,
                                    cfg.confidence_threshold as int,
                                    spec_class_names(cfg),
                                    frames@[j].id as int,
                                    frames@[j].timestamp as int,
                                ),
                                cfg.nms_threshold as int,
                            )
                        } else {
                            results@[j]@.len() == 0
                        }
                    },
            decreases frames@.len() - k,
        {
            let detections = match self.detect(&frames[k], &outputs_per_frame[k]) {
                Ok(v) => v,
                Err(_) => Vec::new(),
            };
            results.push(detections);
            k += 1;
        }
        Ok(results)
    }
}

proof fn lemma_pooled_snoc(
    seqs: Seq<Seq<RawDetection>>,
    k: int,
    t: int,
    names: Seq<Seq<char>>,
    frame_id: int,
    ts: int,
)
    requires
        0 <= k < seqs.len(),
    ensures
        spec_pooled(seqs.take(k + 1), t, names, frame_id, ts) == spec_pooled(
            seqs.take(k),
            t,
            names,
            frame_id,
            ts,
        ) + spec_interpret(seqs[k], t, names, frame_id, ts),
    decreases k,
{
    if k == 0 {
        assert(seqs.take(1)[0] == seqs[0]);
        assert(seqs.take(1).drop_first() =~= Seq::<Seq<RawDetection>>::empty());
        assert(spec_pooled(seqs.take(0), t, names, frame_id, ts) =~= Seq::<
            DetectionView,
        >::empty());
        assert(seqs.take(1).drop_first() =~= seqs.take(0));
        assert(spec_pooled(seqs.take(1), t, names, frame_id, ts) =~= spec_interpret(
            seqs[0],
            t,
            names,
            frame_id,
            ts,
        ));
    } else {
        lemma_pooled_snoc(seqs.drop_first(), k - 1, t, names, frame_id, ts);
        assert(seqs.take(k + 1)[0] == seqs[0]);
        assert(seqs.take(k + 1).drop_first() =~= seqs.drop_first().take(k));
        assert(seqs.take(k).drop_first() =~= seqs.drop_first().take(k - 1));
        assert(seqs.drop_first()[k - 1] == seqs[k]);
        assert(spec_pooled(seqs.take(k + 1), t, names, frame_id, ts) == spec_interpret(
            seqs[0],
            t,
            names,
            frame_id,
            ts,
        ) + spec_pooled(seqs.drop_first().take(k), t, names, frame_id, ts));
        assert(spec_interpret(seqs[0], t, names, frame_id, ts) + (spec_pooled(
            seqs.drop_first().take(k - 1),
            t,
            names,
            frame_id,
            ts,
        ) + spec_interpret(seqs[k], t, names, frame_id, ts)) =~= (spec_interpret(
            seqs[0],
            t,
            names,
            frame_id,
            ts,
        ) + spec_pooled(seqs.drop_first().take(k - 1), t, names, frame_id, ts)) + spec_interpret(
            seqs[k],
            t,
            names,
            frame_id,
            ts,
        ));
        assert(spec_pooled(seqs.take(k), t, names, frame_id, ts) == spec_interpret(
            seqs[0],
            t,
            names,
            frame_id,
            ts,
        ) + spec_pooled(seqs.drop_first().take(k - 1), t, names, frame_id, ts));
    }
}

/// Every pooled detection's confidence exceeds the threshold it was kept
/// at.
proof fn lemma_pooled_confident(
    seqs: Seq<Seq<RawDetection>>,
    t: int,
    names: Seq<Seq<char>>,
    frame_id: int,
    ts: int,
)
    ensures
        forall|x: DetectionView| #[trigger]
            spec_pooled(seqs, t, names, frame_id, ts).contains(x) ==> x.confidence > t,
    decreases seqs.len(),
{
    broadcast use vstd::seq_lib::group_filter_ensures;

    if seqs.len() > 0 {
        lemma_pooled_confident(seqs.drop_first(), t, names, frame_id, ts);
        let pool = spec_pooled(seqs, t, names, frame_id, ts);
        let head = spec_interpret(seqs[0], t, names, frame_id, ts);
        let rest = spec_pooled(seqs.drop_first(), t, names, frame_id, ts);
        assert forall|x: DetectionView| #[trigger] pool.contains(x) implies x.confidence > t by {
            let i = choose|i: int| 0 <= i < pool.len() && pool[i] == x;
            if i < head.len() {
                assert(head[i] == x);
                let kept = seqs[0].filter(row_kept(t));
                assert(x == spec_row_detection(kept[i], names, frame_id, ts));
                assert(row_kept(t)(kept[i]));
            } else {
                assert(rest[i - head.len()] == x);
                assert(rest.contains(x));
            }
        }
    }
}

} // verus!
