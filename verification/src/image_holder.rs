//! The frames that were loaded and the frames that were made of them.
use vstd::prelude::*;
use crate::datatypes::Fraction;
use crate::frame::{FrameView, Frames};
use crate::pipeline_model::views;

verus! {

/// What the holder holds, as mathematical values.
pub struct ImageHolderView {
    pub input_frames: Seq<FrameView>,
    pub output_frames: Seq<FrameView>,
}

/// Holds the input frames and the output frames of the latest run.
pub struct ImageHolder {
    input_frames: Frames,
    pub output_frames: Frames,
}

impl View for ImageHolder {
    type V = ImageHolderView;

    closed spec fn view(&self) -> ImageHolderView {
        ImageHolderView {
            input_frames: views(self.input_frames@),
            output_frames: views(self.output_frames@),
        }
    }
}

impl ImageHolder {
    /// A holder without frames.
    pub fn new() -> (r: ImageHolder)
        ensures
            r@.input_frames.len() == 0,
            r@.output_frames.len() == 0,
    {
        ImageHolder { input_frames: Vec::new(), output_frames: Vec::new() }
    }

    /// Replaces the input frames. The output frames stay.
    pub fn update_input_frames(&mut self, frames: Frames)
        ensures
            final(self)@.input_frames == views(frames@),
            final(self)@.output_frames == old(self)@.output_frames,
    {
        self.input_frames = frames;
    }

    /// Takes in frames that were loaded: they become the input, and the
    /// output, which was made of other frames, is dropped.
    pub fn image_loaded(&mut self, frames: Frames)
        ensures
            final(self)@.input_frames == views(frames@),
            final(self)@.output_frames.len() == 0,
    {
        self.output_frames.clear();
        self.update_input_frames(frames);
    }

    /// Takes in the result of a run. The input frames stay.
    pub fn image_processed(&mut self, frames: Frames)
        ensures
            final(self)@.output_frames == views(frames@),
            final(self)@.input_frames == old(self)@.input_frames,
    {
        self.output_frames = frames;
    }

    /// The input frames.
    pub fn input_frames(&self) -> (r: &Frames)
        ensures
            views(r@) == self@.input_frames,
    {
        &self.input_frames
    }

    /// Whether there are output frames.
    pub fn has_output_frames(&self) -> (r: bool)
        ensures
            r == (self@.output_frames.len() > 0),
    {
        self.output_frames.len() > 0
    }

    /// Whether there are input frames.
    pub fn has_input_frames(&self) -> (r: bool)
        ensures
            r == (self@.input_frames.len() > 0),
    {
        self.input_frames.len() > 0
    }

    /// How many output frames there are for each input frame, as a fraction
    /// of the two counts. There is no ratio while either is missing.
    pub fn get_speed_ratio(&self) -> (r: Option<Fraction>)
        ensures
            r is Some <==> self@.input_frames.len() > 0 && self@.output_frames.len() > 0,
            r matches Some(ratio) ==> ratio.numerator == self@.output_frames.len()
                && ratio.denominator == self@.input_frames.len(),
    {
        if self.has_input_frames() && self.has_output_frames() {
            Some(
                Fraction {
                    numerator: self.output_frames.len(),
                    denominator: self.input_frames.len(),
                },
            )
        } else {
            None
        }
    }
}

} // verus!
