//! Frame production: identifier assignment and metadata, and selection of
//! the preprocessing steps that the pipeline will run.
//!
//! The pixel work itself (capture, resize, blur, color conversion) is done
//! by an external image-processing collaborator; this module owns the
//! bookkeeping around it: frame ids are assigned strictly increasingly per
//! producer, and the step list is built once from the configuration.

use vstd::prelude::*;

use crate::errors::CoreError;

verus! {

#[derive(Debug, Clone, Copy, PartialEq, Eq, Structural)]
pub enum ColorSpace {
    RGB,
    BGR,
    GRAY,
    HSV,
}

impl ColorSpace {
    pub open spec fn spec_label(&self) -> Seq<char> {
        match self {
            ColorSpace::RGB => "RGB"@,
            ColorSpace::BGR => "BGR"@,
            ColorSpace::GRAY => "GRAY"@,
            ColorSpace::HSV => "HSV"@,
        }
    }

    /// The name of the color space, as recorded in frame metadata.
    pub fn to_string(&self) -> (r: String)
        ensures
            r@ == self.spec_label(),
    {
        match self {
            ColorSpace::RGB => "RGB".to_owned(),
            ColorSpace::BGR => "BGR".to_owned(),
            ColorSpace::GRAY => "GRAY".to_owned(),
            ColorSpace::HSV => "HSV".to_owned(),
        }
    }
}

/// One preprocessing step. Blur and threshold parameters are fractions of
/// `UNIT_SCALE` (thousandths).
#[derive(Debug, Clone, Copy, PartialEq, Eq, Structural)]
pub enum PreprocessingStep {
    Resize(u32, u32),
    Normalize,
    GaussianBlur(u64),
    MedianBlur(i32),
    Threshold(u64),
    Sharpen,
}

#[derive(Debug, Clone, Copy, PartialEq, Eq, Structural)]
pub enum ProcessingDevice {
    CPU,
    GPU(i32),
}

#[derive(Debug, Clone)]
pub struct ProcessorConfig {
    pub input_width: u32,
    pub input_height: u32,
    pub normalize: bool,
    pub color_space: ColorSpace,
    pub preprocessing: Vec<PreprocessingStep>,
    pub batch_size: usize,
    pub device: ProcessingDevice,
}

#[derive(Debug)]
pub struct FrameMetadata {
    pub width: u32,
    pub height: u32,
    pub channels: u8,
    pub format: String,
    pub source: String,
}

/// The mathematical value of a `FrameMetadata`.
pub struct FrameMetadataView {
    pub width: int,
    pub height: int,
    pub channels: int,
    pub format: Seq<char>,
    pub source: Seq<char>,
}

impl View for FrameMetadata {
    type V = FrameMetadataView;

    open spec fn view(&self) -> FrameMetadataView {
        FrameMetadataView {
            width: self.width as int,
            height: self.height as int,
            channels: self.channels as int,
            format: self.format@,
            source: self.source@,
        }
    }
}

impl Clone for FrameMetadata {
    fn clone(&self) -> (r: Self)
        ensures
            r@ == self@,
    {
        FrameMetadata {
            width: self.width,
            height: self.height,
            channels: self.channels,
            format: self.format.clone(),
            source: self.source.clone(),
        }
    }
}

/// One timestamped unit of visual input. The pixel buffer itself lives
/// with the image-processing collaborator; the core reads only the frame's
/// identity and metadata.
#[derive(Debug)]
pub struct Frame {
    pub id: u64,
    pub timestamp: i64,
    pub metadata: FrameMetadata,
}

/// The mathematical value of a `Frame`.
pub struct FrameView {
    pub id: int,
    pub timestamp: int,
    pub metadata: FrameMetadataView,
}

impl View for Frame {
    type V = FrameView;

    open spec fn view(&self) -> FrameView {
        FrameView { id: self.id as int, timestamp: self.timestamp as int, metadata: self.metadata@ }
    }
}

impl Clone for Frame {
    fn clone(&self) -> (r: Self)
        ensures
            r@ == self@,
    {
        Frame { id: self.id, timestamp: self.timestamp, metadata: self.metadata.clone() }
    }
}

/// Steps the preprocessing pipeline can execute; normalization is folded
/// into tensor preparation instead and is skipped when the pipeline is
/// built.
pub open spec fn buildable_step() -> spec_fn(PreprocessingStep) -> bool {
    |s: PreprocessingStep| !(s is Normalize)
}

pub struct Processor {
    pub config: ProcessorConfig,
    pub frame_counter: u64,
    pub preprocessing_pipeline: Vec<PreprocessingStep>,
}

impl Processor {
    /// Build a processor; the executable preprocessing steps are selected
    /// from the configuration in order.
    pub fn new(config: ProcessorConfig) -> (r: Result<Processor, CoreError>)
        ensures
            r is Ok,
            r->Ok_0.config == config,
            r->Ok_0.frame_counter == 0,
            r->Ok_0.preprocessing_pipeline@ == config.preprocessing@.filter(buildable_step()),
    {
        let preprocessing_pipeline = Self::build_preprocessing_pipeline(&config.preprocessing);
        Ok(Processor { config, frame_counter: 0, preprocessing_pipeline })
    }

    /// Select, in order, the configured steps that the pipeline executes.
    pub fn build_preprocessing_pipeline(steps: &Vec<PreprocessingStep>) -> (r: Vec<
        PreprocessingStep,
    >)
        ensures
            r@ == steps@.filter(buildable_step()),
    {
        let ghost p = buildable_step();
        let mut out: Vec<PreprocessingStep> = Vec::new();
        let mut i: usize = 0;
        proof {
            assert(steps@.take(0) =~= Seq::<PreprocessingStep>::empty());
            reveal(Seq::filter);
        }
        while i < steps.len()
            invariant
                i <= steps@.len(),
                p == buildable_step(),
                out@ == steps@.take(i as int).filter(p),
            decreases steps@.len() - i,
        {
            let step = steps[i];
            proof {
                reveal(Seq::filter);
                assert(steps@.take(i as int + 1).drop_last() =~= steps@.take(i as int));
                assert(steps@.take(i as int + 1).last() == steps@[i as int]);
            }
            match step {
                PreprocessingStep::Resize(_, _) => out.push(step),
                PreprocessingStep::GaussianBlur(_) => out.push(step),
                PreprocessingStep::MedianBlur(_) => out.push(step),
                PreprocessingStep::Threshold(_) => out.push(step),
                PreprocessingStep::Sharpen => out.push(step),
                PreprocessingStep::Normalize => (),
            }
            proof {
                if p(steps@[i as int]) {
                    assert(out@ =~= steps@.take(i as int).filter(p).push(steps@[i as int]));
                }
            }
            i += 1;
        }
        proof {
            assert(steps@.take(steps@.len() as int) =~= steps@);
        }
        out
    }

    /// Record one produced frame: assign the next identifier and attach
    /// metadata. Frame ids strictly increase per producer.
    pub fn register_frame_at(&mut self, width: u32, height: u32, channels: u8, timestamp: i64) -> (r:
        Frame)
        requires
            old(self).frame_counter < u64::MAX,
        ensures
            final(self).frame_counter == old(self).frame_counter + 1,
            final(self).config == old(self).config,
            final(self).preprocessing_pipeline == old(self).preprocessing_pipeline,
            r.id == final(self).frame_counter,
            r.id > old(self).frame_counter,
            r.timestamp == timestamp,
            r.metadata@.width == width as int,
            r.metadata@.height == height as int,
            r.metadata@.channels == channels as int,
            r.metadata@.format == old(self).config.color_space.spec_label(),
            r.metadata@.source == "processor"@,
    {
        self.frame_counter = self.frame_counter + 1;
        let metadata = FrameMetadata {
            width,
            height,
            channels,
            format: self.config.color_space.to_string(),
            source: "processor".to_owned(),
        };
        Frame { id: self.frame_counter, timestamp, metadata }
    }
}


impl Processor {
    /// Record one produced frame, stamped with the wall clock: assign the
    /// next identifier and attach metadata.
    pub fn register_frame(&mut self, width: u32, height: u32, channels: u8) -> (r: Frame)
        requires
            old(self).frame_counter < u64::MAX,
        ensures
            final(self).frame_counter == old(self).frame_counter + 1,
            final(self).config == old(self).config,
            final(self).preprocessing_pipeline == old(self).preprocessing_pipeline,
            r.id == final(self).frame_counter,
            r.id > old(self).frame_counter,
            r.metadata@.width == width as int,
            r.metadata@.height == height as int,
            r.metadata@.channels == channels as int,
            r.metadata@.format == old(self).config.color_space.spec_label(),
            r.metadata@.source == "processor"@,
    {
        let now = crate::clock::now_timestamp();
        self.register_frame_at(width, height, channels, now)
    }
}

} // verus!
