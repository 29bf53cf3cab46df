//! The interpolation worker: what it is told, what it keeps, and how it warps.
use vstd::prelude::*;
use itertools::{Either, Itertools};
use crate::datatypes::{
    FlowAlg, FlowCall, ImgParams, EPIC_K, EPIC_LAMBDA_BITS, EPIC_SIGMA_BITS, FGS_LAMBDA_BITS,
    FGS_SIGMA_BITS, RIC_SLIC_TYPE, RIC_SP_SIZE,
};
use crate::frame::{lemma_index_in_bounds, Frame, FrameView, Frames, Rgba};
use crate::pipeline::{Fault, Pipeline, Step};
use crate::pipeline_model::{views, PipelineView};
use crate::motion::{clamped, warped, warped_pixel, MotionField, Sample};

verus! {

/// Clamps a coordinate into `0 ..= limit - 1`.
fn clamp_coordinate(v: i32, limit: u32) -> (r: u32)
    requires
        limit > 0,
    ensures
        r == clamped(v as int, limit as nat),
        r < limit,
{
    if v < 0 {
        0
    } else if (v as u32) >= limit {
        limit - 1
    } else {
        v as u32
    }
}

/// An update sent to the worker.
#[non_exhaustive]
pub enum ImageProcessorMessage {
    /// A new sequence of input frames.
    UpdatedInputImage(Frames),
    /// New parameters.
    UpdatedImgParams(ImgParams),
}

impl ImageProcessorMessage {
    /// The name of the kind of update, without what it carries.
    pub fn name(&self) -> (r: &'static str)
        ensures
            r@ == match *self {
                ImageProcessorMessage::UpdatedInputImage(_) => "UpdatedInputImage"@,
                ImageProcessorMessage::UpdatedImgParams(_) => "UpdatedImgParams"@,
            },
    {
        match self {
            ImageProcessorMessage::UpdatedInputImage(_) => "UpdatedInputImage",
            ImageProcessorMessage::UpdatedImgParams(_) => "UpdatedImgParams",
        }
    }

    /// Takes the message apart: new parameters to the left (`Err`), new
    /// frames to the right (`Ok`).
    pub fn sort(self) -> (r: Result<Frames, ImgParams>)
        ensures
            r == match self {
                ImageProcessorMessage::UpdatedInputImage(frames) => Ok::<Frames, ImgParams>(frames),
                ImageProcessorMessage::UpdatedImgParams(params) => Err::<Frames, ImgParams>(params),
            },
    {
        match self {
            ImageProcessorMessage::UpdatedInputImage(frames) => Ok(frames),
            ImageProcessorMessage::UpdatedImgParams(params) => Err(params),
        }
    }
}

/// The parameters that the messages carry, in the order of the messages.
pub open spec fn params_of(msgs: Seq<ImageProcessorMessage>) -> Seq<ImgParams>
    decreases msgs.len(),
{
    if msgs.len() == 0 {
        Seq::empty()
    } else {
        match msgs.last() {
            ImageProcessorMessage::UpdatedImgParams(params) => params_of(msgs.drop_last()).push(
                params,
            ),
            _ => params_of(msgs.drop_last()),
        }
    }
}

/// The frame sequences that the messages carry, in the order of the messages.
pub open spec fn frames_of(msgs: Seq<ImageProcessorMessage>) -> Seq<Frames>
    decreases msgs.len(),
{
    if msgs.len() == 0 {
        Seq::empty()
    } else {
        match msgs.last() {
            ImageProcessorMessage::UpdatedInputImage(frames) => frames_of(msgs.drop_last()).push(
                frames,
            ),
            _ => frames_of(msgs.drop_last()),
        }
    }
}

/// The parameters of the last message that carries any.
pub open spec fn latest_params(msgs: Seq<ImageProcessorMessage>) -> Option<ImgParams>
    decreases msgs.len(),
{
    if msgs.len() == 0 {
        None
    } else {
        match msgs.last() {
            ImageProcessorMessage::UpdatedImgParams(params) => Some(params),
            _ => latest_params(msgs.drop_last()),
        }
    }
}

/// The frames of the last message that carries any.
pub open spec fn latest_frames(msgs: Seq<ImageProcessorMessage>) -> Option<Frames>
    decreases msgs.len(),
{
    if msgs.len() == 0 {
        None
    } else {
        match msgs.last() {
            ImageProcessorMessage::UpdatedInputImage(frames) => Some(frames),
            _ => latest_frames(msgs.drop_last()),
        }
    }
}

/// `Itertools::partition_map` over the messages. It walks the messages once,
/// front to back, and appends what each stands for to the left or to the
/// right collection. [`ImageProcessorMessage::sort`] tells the side, and
/// `Either::from` turns its `Err` into the left and its `Ok` into the right
/// side. The contract claims, without proof, that the first result holds the
/// parameters and the second the frame sequences of the messages, each in the
/// order in which they came.
#[verifier::external_body]
fn partition_messages(msgs: Vec<ImageProcessorMessage>) -> (r: (Vec<ImgParams>, Vec<Frames>))
    ensures
        r.0@ == params_of(msgs@),
        r.1@ == frames_of(msgs@),
{
    msgs.into_iter().partition_map(|msg| Either::from(msg.sort()))
}

/// The last entry of the sorted parameters is the latest of the messages.
proof fn lemma_latest_is_last(msgs: Seq<ImageProcessorMessage>)
    ensures
        latest_params(msgs) == if params_of(msgs).len() == 0 {
            None
        } else {
            Some(params_of(msgs).last())
        },
        latest_frames(msgs) == if frames_of(msgs).len() == 0 {
            None
        } else {
            Some(frames_of(msgs).last())
        },
    decreases msgs.len(),
{
    if msgs.len() > 0 {
        lemma_latest_is_last(msgs.drop_last());
    }
}

/// Retains, of a batch of messages, the latest of each kind. The batch is the
/// message that the worker waited for, followed by those that were queued
/// behind it.
pub fn wait_and_retain_latest_messages(
    first: ImageProcessorMessage,
    queued: Vec<ImageProcessorMessage>,
) -> (r: (Option<ImgParams>, Option<Frames>))
    ensures
        r.0 == latest_params(seq![first] + queued@),
        r.1 == latest_frames(seq![first] + queued@),
{
    let mut msgs = queued;
    msgs.insert(0, first);
    assert(msgs@ =~= seq![first] + queued@);
    proof {
        lemma_latest_is_last(msgs@);
    }
    let (mut msgs_params, mut msgs_frames) = partition_messages(msgs);
    (msgs_params.pop(), msgs_frames.pop())
}

/// Of a batch, the latest message of each kind wins: what is retained is the
/// payload of a message after which none of its kind follows, and nothing is
/// retained only where the batch has no message of that kind.
pub proof fn lemma_latest_wins(msgs: Seq<ImageProcessorMessage>, i: int)
    requires
        0 <= i < msgs.len(),
    ensures
        (msgs[i] is UpdatedImgParams && forall|j: int|
            i < j < msgs.len() ==> !(#[trigger] msgs[j] is UpdatedImgParams)) ==> latest_params(msgs)
            == Some(msgs[i]->UpdatedImgParams_0),
        (msgs[i] is UpdatedInputImage && forall|j: int|
            i < j < msgs.len() ==> !(#[trigger] msgs[j] is UpdatedInputImage)) ==> latest_frames(
            msgs,
        ) == Some(msgs[i]->UpdatedInputImage_0),
        msgs[i] is UpdatedImgParams ==> latest_params(msgs) is Some,
        msgs[i] is UpdatedInputImage ==> latest_frames(msgs) is Some,
    decreases msgs.len(),
{
    if i < msgs.len() - 1 {
        let shorter = msgs.drop_last();
        lemma_latest_wins(shorter, i);
    }
}

/// A batch without a message of a kind retains nothing of that kind.
pub proof fn lemma_nothing_to_retain(msgs: Seq<ImageProcessorMessage>)
    ensures
        (forall|j: int| 0 <= j < msgs.len() ==> !(#[trigger] msgs[j] is UpdatedImgParams))
            ==> latest_params(msgs) is None,
        (forall|j: int| 0 <= j < msgs.len() ==> !(#[trigger] msgs[j] is UpdatedInputImage))
            ==> latest_frames(msgs) is None,
    decreases msgs.len(),
{
    if msgs.len() > 0 {
        let shorter = msgs.drop_last();
        lemma_nothing_to_retain(shorter);
    }
}

/// What the worker keeps between runs, as mathematical values.
pub struct ImageProcessorView {
    pub input_frames: Seq<FrameView>,
    pub img_params: ImgParams,
    /// Whether the worker is computing rather than waiting for updates.
    pub busy: bool,
}

/// The worker of the interpolation engine: the current frames and parameters,
/// which updates replace as a whole and of which every run takes a snapshot.
/// The worker waits for updates or computes; a batch of updates sets it
/// computing, and the end of the run sets it waiting again.
pub struct ImageProcessor {
    input_frames: Frames,
    img_params: ImgParams,
    busy: bool,
}

impl View for ImageProcessor {
    type V = ImageProcessorView;

    closed spec fn view(&self) -> ImageProcessorView {
        ImageProcessorView {
            input_frames: views(self.input_frames@),
            img_params: self.img_params,
            busy: self.busy,
        }
    }
}

/// Copies a sequence of frames.
fn clone_frames(frames: &Frames) -> (r: Frames)
    ensures
        views(r@) == views(frames@),
{
    let mut copy: Frames = Vec::new();
    let mut i: usize = 0;
    while i < frames.len()
        invariant
            i <= frames@.len(),
            copy@.len() == i,
            forall|k: int| 0 <= k < i ==> copy@[k]@ == frames@[k]@,
        decreases frames@.len() - i,
    {
        copy.push(frames[i].clone());
        i += 1;
    }
    copy
}

impl ImageProcessor {
    /// A worker that waits, has no frames yet and the default parameters.
    pub fn new() -> (r: ImageProcessor)
        ensures
            !r@.busy,
            r@.input_frames.len() == 0,
            r@.img_params == (ImgParams {
                inbetweens: 0,
                loop_seamlessly: false,
                flow_multiplier: 0,
                optflow_alg: FlowAlg::Invalid,
                show_motion_vectors: false,
            }),
    {
        ImageProcessor { input_frames: Vec::new(), img_params: ImgParams::default(), busy: false }
    }

    /// Wraps new parameters for the worker's queue. Parameters without an
    /// algorithm are turned away.
    pub fn submit_config(img_params: ImgParams) -> (r: Result<ImageProcessorMessage, Fault>)
        ensures
            r == if img_params.optflow_alg == FlowAlg::Invalid {
                Err::<ImageProcessorMessage, Fault>(Fault::UnknownAlgorithm)
            } else {
                Ok::<ImageProcessorMessage, Fault>(ImageProcessorMessage::UpdatedImgParams(img_params))
            },
    {
        match img_params.optflow_alg {
            FlowAlg::Invalid => Err(Fault::UnknownAlgorithm),
            _ => Ok(ImageProcessorMessage::UpdatedImgParams(img_params)),
        }
    }

    /// Wraps new input frames for the worker's queue.
    pub fn submit_frames(frames: Frames) -> (r: ImageProcessorMessage)
        ensures
            r == ImageProcessorMessage::UpdatedInputImage(frames),
    {
        ImageProcessorMessage::UpdatedInputImage(frames)
    }

    /// Replaces the parameters, the frames or both. What is not given stays.
    pub fn update(&mut self, new_params: Option<ImgParams>, new_frames: Option<Frames>)
        ensures
            final(self)@.busy == old(self)@.busy,
            final(self)@.img_params == match new_params {
                Some(params) => params,
                None => old(self)@.img_params,
            },
            final(self)@.input_frames == match new_frames {
                Some(frames) => views(frames@),
                None => old(self)@.input_frames,
            },
    {
        if let Some(params) = new_params {
            self.img_params = params;
        }
        if let Some(frames) = new_frames {
            self.input_frames = frames;
        }
    }

    /// Takes in a batch of updates: the message that the worker waited for and
    /// those queued behind it. Of each kind the latest is applied, the others
    /// are dropped. The worker is computing from here on.
    pub fn receive(&mut self, first: ImageProcessorMessage, queued: Vec<ImageProcessorMessage>)
        ensures
            final(self)@.busy,
            final(self)@.img_params == match latest_params(seq![first] + queued@) {
                Some(params) => params,
                None => old(self)@.img_params,
            },
            final(self)@.input_frames == match latest_frames(seq![first] + queued@) {
                Some(frames) => views(frames@),
                None => old(self)@.input_frames,
            },
    {
        let (new_params, new_frames) = wait_and_retain_latest_messages(first, queued);
        self.update(new_params, new_frames);
        self.busy = true;
    }

    /// Notes that the run is over, however it ended: the worker waits again.
    /// Frames and parameters stay.
    pub fn finished(&mut self)
        ensures
            !final(self)@.busy,
            final(self)@.input_frames == old(self)@.input_frames,
            final(self)@.img_params == old(self)@.img_params,
    {
        self.busy = false;
    }

    /// Whether the worker is computing.
    pub fn is_busy(&self) -> (r: bool)
        ensures
            r == self@.busy,
    {
        self.busy
    }

    /// The current parameters.
    pub fn img_params(&self) -> (r: ImgParams)
        ensures
            r == self@.img_params,
    {
        self.img_params
    }

    /// Begins a run on a snapshot of the current frames and parameters.
    /// `multipliers` is the schedule of the current parameters, each fraction
    /// as a single-precision number scaled by the configured multiplier.
    pub fn begin(&self, multipliers: Vec<u32>) -> (r: (Pipeline, Step))
        ensures
            (r.0@, r.1@) == PipelineView::start(
                self@.input_frames,
                self@.img_params,
                multipliers@,
            ),
            r.0@.consistent(),
    {
        Pipeline::start(clone_frames(&self.input_frames), self.img_params, multipliers)
    }

    /// Chooses the call of the flow capability that runs the configured
    /// algorithm. Without an algorithm there is none.
    pub fn do_optical_flow(optflow_alg: &FlowAlg) -> (r: Result<FlowCall, Fault>)
        ensures
            r is Err <==> *optflow_alg == FlowAlg::Invalid,
            r is Err ==> r->Err_0 == Fault::UnknownAlgorithm,
            r is Ok ==> r->Ok_0 == optflow_alg.call(),
    {
        match *optflow_alg {
            FlowAlg::SimpleFlow { layers, averaging_block_size, max_flow } => Ok(
                FlowCall::SimpleFlow {
                    layers: #[verifier::truncate] (layers as i32),
                    averaging_block_size: #[verifier::truncate] (averaging_block_size as i32),
                    max_flow: #[verifier::truncate] (max_flow as i32),
                },
            ),
            FlowAlg::DenseRLOF {
                forward_backward_threshold,
                grid_step_x,
                grid_step_y,
                use_post_proc,
                use_variational_refinement,
            } => Ok(
                FlowCall::DenseRLOF {
                    forward_backward_threshold,
                    grid_step_x,
                    grid_step_y,
                    epic_k: EPIC_K,
                    epic_sigma: EPIC_SIGMA_BITS,
                    epic_lambda: EPIC_LAMBDA_BITS,
                    ric_sp_size: RIC_SP_SIZE,
                    ric_slic_type: RIC_SLIC_TYPE,
                    use_post_proc,
                    fgs_lambda: FGS_LAMBDA_BITS,
                    fgs_sigma: FGS_SIGMA_BITS,
                    use_variational_refinement,
                },
            ),
            FlowAlg::Invalid => Err(Fault::UnknownAlgorithm),
        }
    }

    /// Warps a frame backwards along a motion field. `samples` holds, for
    /// every pixel, the rounded position that the scaled motion points back to;
    /// it is clamped into the frame and the source pixel there is taken. Where
    /// the motion vector is not finite the pixel stays where it is. There is no
    /// result unless field and samples have the size of the frame.
    pub fn apply_flow_to(frame: &Frame, flow: &MotionField, samples: &Vec<Sample>) -> (r: Option<
        Frame,
    >)
        ensures
            r is Some <==> flow@.width == frame@.width && flow@.height == frame@.height
                && samples@.len() == frame@.pixels.len(),
            r is Some ==> r->0@ == warped(frame@, flow@, samples@),
    {
        let w: u32 = frame.width();
        let h: u32 = frame.height();
        let source = frame.pixels();
        let vectors = flow.vectors();
        let count: usize = source.len();
        if flow.width() != w || flow.height() != h || samples.len() != count {
            return None;
        }
        let mut pixels: Vec<Rgba> = Vec::new();
        let mut i: usize = 0;
        while i < count
            invariant
                i <= count,
                count == source@.len(),
                count == vectors@.len(),
                count == samples@.len(),
                count == w * h,
                source@ == frame@.pixels,
                vectors@ == flow@.vectors,
                w == frame@.width,
                h == frame@.height,
                pixels@.len() == i,
                forall|k: int|
                    0 <= k < i ==> pixels@[k] == warped_pixel(frame@, flow@, samples@, k),
            decreases count - i,
        {
            let pixel: Rgba = if vectors[i].is_finite() {
                assert(w > 0 && h > 0) by (nonlinear_arith)
                    requires
                        w * h > 0,
                        w >= 0,
                        h >= 0,
                ;
                let sample: Sample = samples[i];
                let x: u32 = clamp_coordinate(sample.x, w);
                let y: u32 = clamp_coordinate(sample.y, h);
                proof {
                    lemma_index_in_bounds(w as nat, h as nat, x as int, y as int);
                }
                source[(y as usize) * (w as usize) + (x as usize)]
            } else {
                source[i]
            };
            pixels.push(pixel);
            i += 1;
        }
        assert(pixels@ =~= warped(frame@, flow@, samples@).pixels);
        Frame::new(w, h, pixels)
    }
}

} // verus!
