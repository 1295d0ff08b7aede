use vision_core::analyzer::{Analyzer, AnalyzerConfig, AnalyzerType, TrackingConfig};
use vision_core::detector::{
    Detection, Detector, DetectorConfig, DetectionDevice, DetectorType, ModelConfig,
    ModelFramework, RawDetection,
};
use vision_core::errors::CoreError;
use vision_core::geometry::{iou_at_least, BBox};
use vision_core::processor::{
    ColorSpace, PreprocessingStep, ProcessingDevice, Processor, ProcessorConfig, Frame,
    FrameMetadata,
};
use vision_core::suppression::suppress;

fn det(x: u32, y: u32, w: u32, h: u32, confidence: u32) -> Detection {
    Detection {
        bbox: BBox { x, y, width: w, height: h },
        class_id: 0,
        class_name: "object".to_string(),
        confidence,
        frame_id: 1,
        timestamp: 0,
    }
}

fn frame(id: u64, timestamp: i64) -> Frame {
    Frame {
        id,
        timestamp,
        metadata: FrameMetadata {
            width: 640,
            height: 480,
            channels: 3,
            format: "RGB".to_string(),
            source: "test".to_string(),
        },
    }
}

fn detector_config(confidence_threshold: u32, nms_threshold: u32) -> DetectorConfig {
    DetectorConfig {
        confidence_threshold,
        nms_threshold,
        device: DetectionDevice::CPU,
        batch_size: 1,
        enabled_detectors: vec![DetectorType::Object],
        model_configs: vec![ModelConfig {
            name: "primary".to_string(),
            path: "primary.onnx".to_string(),
            framework: ModelFramework::ONNX,
            input_width: 416,
            input_height: 416,
            class_names: vec!["person".to_string(), "car".to_string()],
        }],
    }
}

#[test]
fn iou_of_identical_boxes_is_full() {
    let a = BBox { x: 10, y: 10, width: 100, height: 50 };
    assert!(iou_at_least(&a, &a, 1000));
}

#[test]
fn iou_of_disjoint_boxes_is_zero() {
    let a = BBox { x: 0, y: 0, width: 10, height: 10 };
    let b = BBox { x: 100, y: 100, width: 10, height: 10 };
    assert!(!iou_at_least(&a, &b, 1));
    assert!(iou_at_least(&a, &b, 0));
}

#[test]
fn iou_is_symmetric_on_samples() {
    let a = BBox { x: 0, y: 0, width: 100, height: 100 };
    let b = BBox { x: 50, y: 50, width: 100, height: 100 };
    for t in [0u32, 100, 142, 500, 1000] {
        assert_eq!(iou_at_least(&a, &b, t), iou_at_least(&b, &a, t));
    }
}

#[test]
fn iou_boundary_is_exact() {
    // boxes [0,0,10,10] and [5,0,10,10]: intersection 50, union 150,
    // IoU exactly one third
    let a = BBox { x: 0, y: 0, width: 10, height: 10 };
    let b = BBox { x: 5, y: 0, width: 10, height: 10 };
    assert!(iou_at_least(&a, &b, 333));
    assert!(!iou_at_least(&a, &b, 334));
}

#[test]
fn equal_confidences_keep_input_order() {
    let input = vec![det(0, 0, 10, 10, 500), det(500, 500, 10, 10, 500)];
    let output = suppress(input, 400);
    assert_eq!(output.len(), 2);
    assert_eq!(output[0].bbox.x, 0);
    assert_eq!(output[1].bbox.x, 500);
}

#[test]
fn overlapping_duplicate_is_suppressed() {
    // two boxes at the same location, confidences 0.9 and 0.6,
    // IoU well above the 0.4 threshold: only the 0.9 one survives
    let input = vec![det(10, 10, 100, 100, 600), det(10, 10, 100, 100, 900)];
    let output = suppress(input, 400);
    assert_eq!(output.len(), 1);
    assert_eq!(output[0].confidence, 900);
}

#[test]
fn distant_boxes_both_survive_sorted() {
    let input = vec![det(0, 0, 10, 10, 300), det(500, 500, 10, 10, 800)];
    let output = suppress(input, 400);
    assert_eq!(output.len(), 2);
    assert_eq!(output[0].confidence, 800);
    assert_eq!(output[1].confidence, 300);
}

#[test]
fn suppression_of_empty_input_is_empty() {
    let output = suppress(Vec::new(), 400);
    assert_eq!(output.len(), 0);
}

#[test]
fn suppression_is_idempotent_on_samples() {
    let input = vec![
        det(0, 0, 100, 100, 700),
        det(10, 10, 100, 100, 600),
        det(300, 300, 50, 50, 900),
        det(305, 305, 50, 50, 850),
        det(0, 0, 100, 100, 700),
    ];
    let once = suppress(input, 500);
    let twice = suppress(
        once.iter()
            .map(|d| Detection {
                bbox: d.bbox,
                class_id: d.class_id,
                class_name: d.class_name.clone(),
                confidence: d.confidence,
                frame_id: d.frame_id,
                timestamp: d.timestamp,
            })
            .collect(),
        500,
    );
    assert_eq!(once.len(), twice.len());
    for (a, b) in once.iter().zip(twice.iter()) {
        assert_eq!(a.confidence, b.confidence);
        assert_eq!(a.bbox, b.bbox);
    }
}

#[test]
fn suppression_output_never_overlaps_at_threshold() {
    let input = vec![
        det(0, 0, 100, 100, 700),
        det(20, 0, 100, 100, 650),
        det(40, 0, 100, 100, 600),
        det(500, 500, 30, 30, 100),
    ];
    let t = 300;
    let output = suppress(input, t);
    assert!(output.len() <= 4);
    for i in 0..output.len() {
        for j in 0..output.len() {
            if i != j {
                assert!(!iou_at_least(&output[i].bbox, &output[j].bbox, t));
            }
        }
    }
}

#[test]
fn detector_rejects_out_of_scale_thresholds() {
    let mut config = detector_config(500, 400);
    config.confidence_threshold = 1001;
    match Detector::new(config) {
        Err(CoreError::Config(_)) => (),
        _ => panic!("an out-of-scale threshold must fail construction"),
    }
}

#[test]
fn process_outputs_keeps_only_confident_rows() {
    let detector = Detector::new(detector_config(500, 400)).unwrap();
    let rows = vec![
        RawDetection { x: 0, y: 0, width: 10, height: 10, objectness: 501, class_id: 0 },
        RawDetection { x: 5, y: 5, width: 10, height: 10, objectness: 500, class_id: 0 },
        RawDetection { x: 9, y: 9, width: 10, height: 10, objectness: 499, class_id: 1 },
    ];
    let out = detector.process_outputs(&rows, 7, 123).unwrap();
    assert_eq!(out.len(), 1);
    assert_eq!(out[0].confidence, 501);
    assert_eq!(out[0].class_name, "person");
    assert_eq!(out[0].frame_id, 7);
    assert_eq!(out[0].timestamp, 123);
    assert_eq!(out[0].bbox, BBox { x: 0, y: 0, width: 10, height: 10 });
}

#[test]
fn unresolvable_class_drops_the_frame() {
    let detector = Detector::new(detector_config(500, 400)).unwrap();
    let rows = vec![RawDetection { x: 0, y: 0, width: 10, height: 10, objectness: 700, class_id: 9 }];
    match detector.process_outputs(&rows, 1, 0) {
        Err(CoreError::ClassResolution { class_id }) => assert_eq!(class_id, 9),
        _ => panic!("an unresolvable class id must be a class-resolution error"),
    }
}

#[test]
fn detect_pools_models_and_suppresses_across_them() {
    let mut detector = Detector::new(detector_config(500, 400)).unwrap();
    let f = frame(7, 123);
    // the same location seen by two models: the stronger row wins;
    // a distant row survives alongside it
    let outputs = vec![
        vec![RawDetection { x: 10, y: 10, width: 100, height: 100, objectness: 700, class_id: 0 }],
        vec![
            RawDetection { x: 10, y: 10, width: 100, height: 100, objectness: 900, class_id: 1 },
            RawDetection { x: 400, y: 400, width: 20, height: 20, objectness: 600, class_id: 0 },
        ],
    ];
    let detections = detector.detect(&f, &outputs).unwrap();
    assert_eq!(detections.len(), 2);
    assert_eq!(detections[0].confidence, 900);
    assert_eq!(detections[0].class_name, "car");
    assert_eq!(detections[1].confidence, 600);
    assert_eq!(detections[1].class_name, "person");
    assert!(detections.iter().all(|d| d.frame_id == 7 && d.timestamp == 123));
    assert_eq!(detector.detection_count, 2);
}

#[test]
fn every_detection_clears_the_confidence_threshold() {
    let mut detector = Detector::new(detector_config(500, 400)).unwrap();
    let f = frame(1, 0);
    let outputs = vec![vec![
        RawDetection { x: 0, y: 0, width: 10, height: 10, objectness: 499, class_id: 0 },
        RawDetection { x: 50, y: 0, width: 10, height: 10, objectness: 501, class_id: 0 },
        RawDetection { x: 0, y: 50, width: 10, height: 10, objectness: 1000, class_id: 1 },
    ]];
    let detections = detector.detect(&f, &outputs).unwrap();
    assert!(!detections.is_empty());
    for d in &detections {
        assert!(d.confidence >= 500);
    }
}

#[test]
fn detect_batch_drops_an_unresolvable_frame_and_continues() {
    let mut detector = Detector::new(detector_config(500, 400)).unwrap();
    let frames = vec![frame(1, 10), frame(2, 20), frame(3, 30)];
    let outputs = vec![
        vec![vec![RawDetection { x: 0, y: 0, width: 10, height: 10, objectness: 800, class_id: 0 }]],
        // a kept row with an unresolvable class: this frame is dropped
        vec![vec![RawDetection { x: 0, y: 0, width: 10, height: 10, objectness: 800, class_id: 9 }]],
        vec![vec![RawDetection { x: 0, y: 0, width: 10, height: 10, objectness: 900, class_id: 1 }]],
    ];
    let batches = detector.detect_batch(&frames, &outputs).unwrap();
    assert_eq!(batches.len(), 3);
    assert_eq!(batches[0].len(), 1);
    assert_eq!(batches[0][0].frame_id, 1);
    assert!(batches[1].is_empty());
    assert_eq!(batches[2].len(), 1);
    assert_eq!(batches[2][0].class_name, "car");
}

#[test]
fn analyze_batch_truncates_to_the_shorter_list() {
    let mut analyzer = Analyzer::new(analyzer_config(vec![AnalyzerType::Scene])).unwrap();
    let frames = vec![frame(1, 100), frame(2, 200), frame(3, 300)];
    let detections = vec![Vec::new(), Vec::new()];
    let analyses = analyzer.analyze_batch(&frames, &detections).unwrap();
    assert_eq!(analyses.len(), 2);
    assert_eq!(analyses[0].frame_id, 1);
    assert_eq!(analyses[1].frame_id, 2);
}

#[test]
fn detect_batch_processes_frames_in_order() {
    let mut detector = Detector::new(detector_config(500, 400)).unwrap();
    let frames = vec![frame(1, 10), frame(2, 20)];
    let outputs = vec![
        vec![vec![RawDetection { x: 0, y: 0, width: 10, height: 10, objectness: 800, class_id: 0 }]],
        vec![vec![RawDetection { x: 0, y: 0, width: 10, height: 10, objectness: 900, class_id: 1 }]],
    ];
    let batches = detector.detect_batch(&frames, &outputs).unwrap();
    assert_eq!(batches.len(), 2);
    assert_eq!(batches[0][0].frame_id, 1);
    assert_eq!(batches[0][0].class_name, "person");
    assert_eq!(batches[1][0].frame_id, 2);
    assert_eq!(batches[1][0].class_name, "car");
}

fn analyzer_config(enabled: Vec<AnalyzerType>) -> AnalyzerConfig {
    AnalyzerConfig {
        enabled_analyzers: enabled,
        scene_threshold: 500,
        motion_threshold: 500,
        tracking_config: TrackingConfig {
            max_objects: 10,
            min_confidence: 300,
            max_age: 5,
            min_hits: 2,
        },
        batch_size: 4,
    }
}

#[test]
fn analysis_parts_follow_enabled_kinds() {
    let mut analyzer =
        Analyzer::new(analyzer_config(vec![AnalyzerType::Scene, AnalyzerType::Motion])).unwrap();
    let f = frame(3, 30);
    let detections = vec![det(0, 0, 10, 10, 800), det(50, 50, 10, 10, 700)];
    let analysis = analyzer.analyze(&f, &detections).unwrap();
    assert_eq!(analysis.frame_id, 3);
    assert_eq!(analysis.timestamp, 30);
    let scene = analysis.scene_info.expect("scene analysis is enabled");
    assert_eq!(scene.scene_type, "indoor");
    assert_eq!(scene.confidence, 950);
    assert_eq!(scene.objects, vec!["object".to_string(), "object".to_string()]);
    let motion = analysis.motion_info.expect("motion analysis is enabled");
    assert!(motion.motion_vectors.is_empty());
    assert_eq!(motion.global_motion, 0);
    assert!(analysis.behavior_info.is_none());
    assert!(analysis.pattern_info.is_none());
    assert_eq!(analyzer.previous_frame_id, Some(3));
}

#[test]
fn analyze_batch_pairs_frames_with_detections() {
    let mut analyzer = Analyzer::new(analyzer_config(vec![AnalyzerType::Pattern])).unwrap();
    let frames = vec![frame(1, 100), frame(2, 200)];
    let detections = vec![Vec::new(), Vec::new()];
    let analyses = analyzer.analyze_batch(&frames, &detections).unwrap();
    assert_eq!(analyses.len(), 2);
    assert_eq!(analyses[0].frame_id, 1);
    assert_eq!(analyses[1].frame_id, 2);
    let temporal = analyses[1].pattern_info.as_ref().unwrap().temporal_info;
    assert_eq!(temporal.start_time, 200);
    assert_eq!(temporal.end_time, 200);
    assert_eq!(temporal.duration, 0);
}

#[test]
fn preprocessing_pipeline_skips_normalize() {
    let steps = vec![
        PreprocessingStep::Resize(640, 480),
        PreprocessingStep::Normalize,
        PreprocessingStep::GaussianBlur(1500),
        PreprocessingStep::Sharpen,
    ];
    let pipeline = Processor::build_preprocessing_pipeline(&steps);
    assert_eq!(
        pipeline,
        vec![
            PreprocessingStep::Resize(640, 480),
            PreprocessingStep::GaussianBlur(1500),
            PreprocessingStep::Sharpen,
        ]
    );
}

#[test]
fn frame_ids_strictly_increase() {
    let config = ProcessorConfig {
        input_width: 640,
        input_height: 480,
        normalize: true,
        color_space: ColorSpace::GRAY,
        preprocessing: vec![PreprocessingStep::Normalize],
        batch_size: 2,
        device: ProcessingDevice::CPU,
    };
    let mut processor = Processor::new(config).unwrap();
    assert!(processor.preprocessing_pipeline.is_empty());
    let a = processor.register_frame_at(640, 480, 1, 5);
    let b = processor.register_frame_at(320, 240, 1, 6);
    assert_eq!(a.id, 1);
    assert_eq!(b.id, 2);
    assert!(b.id > a.id);
    assert_eq!(a.timestamp, 5);
    assert_eq!(a.metadata.format, "GRAY");
    assert_eq!(a.metadata.source, "processor");
    assert_eq!(b.metadata.width, 320);
}

#[test]
fn color_space_labels() {
    assert_eq!(ColorSpace::RGB.to_string(), "RGB");
    assert_eq!(ColorSpace::BGR.to_string(), "BGR");
    assert_eq!(ColorSpace::GRAY.to_string(), "GRAY");
    assert_eq!(ColorSpace::HSV.to_string(), "HSV");
}
