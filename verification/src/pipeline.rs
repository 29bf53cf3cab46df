//! One interpolation run as a state machine.
//!
//! The machine decides; the host does the work that needs floating point, the
//! flow capability or the update queue. Every transition hands back a
//! [`Step`]: what to forward to the consumer, and what the machine needs next.
//!
//! A run goes through its pairs in order. Before it makes a frame it asks
//! whether fresher input is pending, and ends without a word if so. For each
//! pair it asks for the motion field once. To draw the field it asks for
//! colours and emits one picture; to warp along it, it emits one frame for
//! each multiplier of the schedule: the first frame of the pair unchanged
//! where the multiplier is near zero, and otherwise the warp for which it asks
//! the host for samples. After the last pair it hands out all frames at once.
use vstd::prelude::*;
use vstd::string::StringExecFns;
use crate::datatypes::{is_near_zero, FlowCall, ImgParams};
use crate::frame::{flow_mat_to_frame, Frame, Frames};
use crate::image_processor::ImageProcessor;
use crate::motion::{MotionField, Rgb, Sample};
use crate::pipeline_lemmas::{
    at_work, lemma_copy_is_warp, lemma_emit, lemma_entry, lemma_next_pair, lemma_slot,
};
use crate::pipeline_model::{
    faithful, fits, pairing_list, views, EventView, PipelineView, StepView,
};
use crate::text::{decimal, decimal_padded};
use crate::utility::array_to_pair;

verus! {

/// Why a run was given up.
#[derive(Clone, Debug, PartialEq, Eq)]
pub enum Fault {
    /// The two frames of a pair differ in size.
    SizeMismatch { first_width: u32, first_height: u32, second_width: u32, second_height: u32 },
    /// No flow algorithm is configured.
    UnknownAlgorithm,
    /// The flow capability failed, with its message.
    Flow(String),
    /// The scaled schedule has not one multiplier per scheduled fraction.
    Schedule,
    /// The run would emit more frames than the machine can count.
    TooLong,
    /// The motion field has not the size of the frames it was asked for.
    FieldSize,
    /// There is not one colour per motion vector.
    Colours,
    /// There is not one sample per pixel.
    Samples,
    /// The host answered something that was not asked.
    OutOfTurn,
    /// The host's own work broke down, with what is known of the cause.
    Panicked(String),
}

/// A frame size as it is written into a message.
pub open spec fn size_text(width: u32, height: u32) -> Seq<char> {
    "Size_ { width: "@ + decimal(width as nat) + ", height: "@ + decimal(height as nat) + " }"@
}

/// Writes a frame size for a message.
fn write_size(width: u32, height: u32) -> (r: String)
    ensures
        r@ == size_text(width, height),
{
    let mut text: String = String::from_str("Size_ { width: ");
    text.append(decimal_padded(width as usize, 0).as_str());
    text.append(", height: ");
    text.append(decimal_padded(height as usize, 0).as_str());
    text.append(" }");
    text
}

impl Fault {
    /// The message that tells the consumer of the fault.
    pub open spec fn spec_message(self) -> Seq<char> {
        match self {
            Fault::SizeMismatch { first_width, first_height, second_width, second_height } => {
                "Frames don't have the same size: "@ + size_text(first_width, first_height)
                    + " != "@ + size_text(second_width, second_height)
            },
            Fault::UnknownAlgorithm => "Unknown optical flow algorithm Invalid"@,
            Fault::Flow(message) => message@,
            Fault::Schedule => "The multiplier schedule does not fit the parameters"@,
            Fault::TooLong => "The run would emit more frames than can be counted"@,
            Fault::FieldSize => "The motion field does not have the size of the frames"@,
            Fault::Colours => "There is not one colour for each motion vector"@,
            Fault::Samples => "There is not one sample for each pixel"@,
            Fault::OutOfTurn => "The host answered what was not asked"@,
            Fault::Panicked(message) => message@,
        }
    }

    /// Writes the message that tells the consumer of the fault.
    pub fn message(&self) -> (r: String)
        ensures
            r@ == self.spec_message(),
    {
        match self {
            Fault::SizeMismatch { first_width, first_height, second_width, second_height } => {
                let mut text: String = String::from_str("Frames don't have the same size: ");
                text.append(write_size(*first_width, *first_height).as_str());
                text.append(" != ");
                text.append(write_size(*second_width, *second_height).as_str());
                text
            },
            Fault::UnknownAlgorithm => String::from_str("Unknown optical flow algorithm Invalid"),
            Fault::Flow(message) => String::from_str(message.as_str()),
            Fault::Schedule => String::from_str(
                "The multiplier schedule does not fit the parameters",
            ),
            Fault::TooLong => String::from_str("The run would emit more frames than can be counted"),
            Fault::FieldSize => String::from_str(
                "The motion field does not have the size of the frames",
            ),
            Fault::Colours => String::from_str("There is not one colour for each motion vector"),
            Fault::Samples => String::from_str("There is not one sample for each pixel"),
            Fault::OutOfTurn => String::from_str("The host answered what was not asked"),
            Fault::Panicked(message) => String::from_str(message.as_str()),
        }
    }
}

/// A mark on the progress channel.
#[derive(Clone, Copy, Debug, PartialEq, Eq, Structural)]
pub enum Progress {
    /// A run has begun: slightly above zero.
    Started,
    /// `done` of the `total` frames of the run are emitted.
    Advanced { done: usize, total: usize },
    /// All pairs are done: one.
    Finished,
}

/// What a step puts on the error channel.
#[derive(Clone, Debug, PartialEq, Eq)]
pub enum ErrorSignal {
    /// Nothing.
    Silent,
    /// The consumer shall forget an error reported earlier.
    Clear,
    /// The run was given up.
    Raise(Fault),
}

/// What the machine needs from the host before it can go on.
#[derive(Clone, Copy, Debug, PartialEq, Eq, Structural)]
pub enum Request {
    /// Whether fresher input is pending.
    PollCancel,
    /// The motion field between the two frames of the current pair.
    ComputeFlow { call: FlowCall },
    /// One colour for each vector of the current motion field.
    Colourise,
    /// For each pixel the rounded position that the current motion field,
    /// scaled by `multiplier`, points back to.
    Displace { multiplier: u32 },
    /// Nothing: the run is over.
    Stop,
}

/// Where a run stands.
#[derive(Clone, Copy, Debug, PartialEq, Eq, Structural)]
pub enum Phase {
    /// Waiting to learn whether fresher input is pending.
    Polling,
    /// Waiting for the motion field of the current pair.
    Flowing,
    /// Waiting for the colours of the current motion field.
    Colouring,
    /// Waiting for the samples of the current schedule entry.
    Displacing,
    /// The run is over.
    Over,
}

/// An answer of the host to a [`Request`].
#[derive(Debug, PartialEq, Eq)]
pub enum Event {
    /// Whether fresher input is pending.
    CancelPolled { pending: bool },
    /// The motion field between the frames of the current pair.
    FlowComputed(MotionField),
    /// The flow capability failed, with its message.
    FlowFailed(String),
    /// One colour for each vector of the current motion field.
    Coloured(Vec<Rgb>),
    /// For each pixel the rounded position that the scaled motion points back to.
    Displaced(Vec<Sample>),
    /// The host's own work broke down, with what is known of the cause.
    Panicked(String),
}

impl View for Event {
    type V = EventView;

    open spec fn view(&self) -> EventView {
        match *self {
            Event::CancelPolled { pending } => EventView::CancelPolled { pending },
            Event::FlowComputed(flow) => EventView::FlowComputed(flow@),
            Event::FlowFailed(message) => EventView::FlowFailed(message),
            Event::Coloured(colours) => EventView::Coloured(colours@),
            Event::Displaced(samples) => EventView::Displaced(samples@),
            Event::Panicked(message) => EventView::Panicked(message),
        }
    }
}

/// What a transition hands to the host: what to forward on the progress,
/// error and result channels, and what the machine needs next.
#[derive(Debug, PartialEq, Eq)]
pub struct Step {
    pub progress: Vec<Progress>,
    pub error: ErrorSignal,
    pub result: Option<Frames>,
    pub request: Request,
}

impl View for Step {
    type V = StepView;

    open spec fn view(&self) -> StepView {
        StepView {
            progress: self.progress@,
            error: self.error,
            result: match self.result {
                Some(frames) => Some(views(frames@)),
                None => None,
            },
            request: self.request,
        }
    }
}

/// The fields of a run, in whatever state.
struct Run {
    frames: Vec<Frame>,
    params: ImgParams,
    multipliers: Vec<u32>,
    phase: Phase,
    pair: usize,
    step: usize,
    flow: Option<MotionField>,
    output: Vec<Frame>,
    total: usize,
}

impl View for Run {
    type V = PipelineView;

    closed spec fn view(&self) -> PipelineView {
        PipelineView {
            frames: views(self.frames@),
            params: self.params,
            multipliers: self.multipliers@,
            phase: self.phase,
            pair: self.pair as nat,
            step: self.step as nat,
            flow: match self.flow {
                Some(flow) => Some(flow@),
                None => None,
            },
            output: views(self.output@),
        }
    }
}

impl Run {
    /// Ends the run without a word.
    fn halt(self) -> (r: Pipeline)
        ensures
            r@ == self@.over(),
            r@.consistent(),
    {
        let run = Run {
            frames: self.frames,
            params: self.params,
            multipliers: self.multipliers,
            phase: Phase::Over,
            pair: 0,
            step: 0,
            flow: None,
            output: Vec::new(),
            total: self.total,
        };
        assert(run@.output =~= Seq::empty());
        Pipeline { run }
    }

    /// Gives the run up.
    fn fail(self, fault: Fault) -> (r: (Pipeline, Step))
        ensures
            (r.0@, r.1@) == self@.failed(fault),
            r.0@.consistent(),
    {
        let step = Step {
            progress: Vec::new(),
            error: ErrorSignal::Raise(fault),
            result: None,
            request: Request::Stop,
        };
        (self.halt(), step)
    }

    /// Handles an answer that was not asked for.
    fn out_of_turn(self) -> (r: (Pipeline, Step))
        requires
            self@.consistent(),
        ensures
            (r.0@, r.1@) == self@.out_of_turn(),
            r.0@.consistent(),
    {
        match self.phase {
            Phase::Over => {
                let step = Step {
                    progress: Vec::new(),
                    error: ErrorSignal::Silent,
                    result: None,
                    request: Request::Stop,
                };
                (Pipeline { run: self }, step)
            },
            _ => self.fail(Fault::OutOfTurn),
        }
    }

    /// Closes the current pair, whose frames are all emitted.
    fn next_pair(self, progress: Vec<Progress>) -> (r: (Pipeline, Step))
        requires
            self.phase != Phase::Over,
            self@.frames.len() >= 2,
            !self@.params.show_motion_vectors ==> self@.multipliers.len()
                == self@.params.schedule_len(),
            self@.pair < self@.pairs(),
            self@.total() <= usize::MAX,
            self@.output.len() == (self@.pair + 1) * self@.params.frames_per_pair(),
            faithful(self@.frames, self@.params, self@.multipliers, self@.output),
            self.total == self@.total(),
        ensures
            (r.0@, r.1@) == self@.next_pair(progress@),
            r.0@.consistent(),
    {
        proof {
            lemma_next_pair(self@, progress@);
        }
        let mut progress = progress;
        let count: usize = self.frames.len();
        if self.pair + 1 == count - 1 {
            progress.push(Progress::Finished);
            let run = Run {
                frames: self.frames,
                params: self.params,
                multipliers: self.multipliers,
                phase: Phase::Over,
                pair: 0,
                step: 0,
                flow: None,
                output: Vec::new(),
                total: self.total,
            };
            assert(run@.output =~= Seq::empty());
            let step = Step {
                progress,
                error: ErrorSignal::Silent,
                result: Some(self.output),
                request: Request::Stop,
            };
            (Pipeline { run }, step)
        } else {
            let run = Run {
                frames: self.frames,
                params: self.params,
                multipliers: self.multipliers,
                phase: Phase::Polling,
                pair: self.pair + 1,
                step: 0,
                flow: None,
                output: self.output,
                total: self.total,
            };
            let step = Step {
                progress,
                error: ErrorSignal::Silent,
                result: None,
                request: Request::PollCancel,
            };
            (Pipeline { run }, step)
        }
    }

    /// Emits `frame` for the current entry of the schedule.
    fn emit(self, frame: Frame) -> (r: (Pipeline, Step))
        requires
            at_work(self@),
            fits(self@.params, self@.multipliers, frame@, self@.first(), self@.step as int),
            !self@.params.show_motion_vectors ==> self@.flow is Some,
            self.total == self@.total(),
        ensures
            (r.0@, r.1@) == self@.emit(frame@),
            r.0@.consistent(),
    {
        let ghost before = self@;
        proof {
            lemma_emit(before, frame@);
            lemma_slot(
                before.pair as int,
                before.step as int,
                before.params.frames_per_pair() as int,
                before.pairs(),
            );
        }
        let Run { frames, params, multipliers, phase, pair, step, flow, output, total } = self;
        let mut output = output;
        output.push(frame);
        assert(views(output@) =~= before.output.push(frame@));
        let mut progress: Vec<Progress> = Vec::new();
        progress.push(Progress::Advanced { done: output.len(), total });
        let per_pair: usize = if params.show_motion_vectors {
            1
        } else {
            multipliers.len()
        };
        if step + 1 < per_pair {
            let run = Run {
                frames,
                params,
                multipliers,
                phase: Phase::Polling,
                pair,
                step: step + 1,
                flow,
                output,
                total,
            };
            let next = Step {
                progress,
                error: ErrorSignal::Silent,
                result: None,
                request: Request::PollCancel,
            };
            (Pipeline { run }, next)
        } else {
            let run = Run { frames, params, multipliers, phase, pair, step, flow, output, total };
            run.next_pair(progress)
        }
    }

    /// Works on the current entry of the schedule.
    fn entry(self) -> (r: (Pipeline, Step))
        requires
            at_work(self@),
            !self@.params.show_motion_vectors,
            self@.flow is Some,
            self.total == self@.total(),
        ensures
            (r.0@, r.1@) == self@.entry(),
            r.0@.consistent(),
    {
        proof {
            lemma_entry(self@);
        }
        let multiplier: u32 = self.multipliers[self.step];
        if is_near_zero(multiplier) {
            let copy: Frame = self.frames[self.pair].clone();
            proof {
                lemma_copy_is_warp(self@.first());
            }
            self.emit(copy)
        } else {
            let run = Run {
                frames: self.frames,
                params: self.params,
                multipliers: self.multipliers,
                phase: Phase::Displacing,
                pair: self.pair,
                step: self.step,
                flow: self.flow,
                output: self.output,
                total: self.total,
            };
            let next = Step {
                progress: Vec::new(),
                error: ErrorSignal::Silent,
                result: None,
                request: Request::Displace { multiplier },
            };
            (Pipeline { run }, next)
        }
    }
}

/// One interpolation run.
pub struct Pipeline {
    run: Run,
}

impl View for Pipeline {
    type V = PipelineView;

    closed spec fn view(&self) -> PipelineView {
        self.run@
    }
}

impl Pipeline {
    #[verifier::type_invariant]
    closed spec fn inv(self) -> bool {
        &&& self.run@.consistent()
        &&& self.run.phase != Phase::Over ==> self.run.total == self.run@.total()
    }

    /// Begins a run on `frames` with the given parameters. `multipliers` is
    /// the schedule of `params`, each fraction as a single-precision number
    /// scaled by the configured multiplier.
    pub fn start(frames: Frames, params: ImgParams, multipliers: Vec<u32>) -> (r: (Pipeline, Step))
        ensures
            (r.0@, r.1@) == PipelineView::start(views(frames@), params, multipliers@),
            r.0@.consistent(),
    {
        let ghost input = views(frames@);
        let mut frames = frames;
        let count: usize = frames.len();
        if count == 0 {
            let run = Run {
                frames,
                params,
                multipliers,
                phase: Phase::Over,
                pair: 0,
                step: 0,
                flow: None,
                output: Vec::new(),
                total: 0,
            };
            assert(run@.output =~= Seq::empty());
            let step = Step {
                progress: Vec::new(),
                error: ErrorSignal::Silent,
                result: None,
                request: Request::Stop,
            };
            return (Pipeline { run }, step);
        }
        let extra: Frame = if params.loop_seamlessly {
            frames[0].clone()
        } else {
            frames[count - 1].clone()
        };
        frames.push(extra);
        assert(views(frames@) =~= pairing_list(input, params.loop_seamlessly));
        let run = Run {
            frames,
            params,
            multipliers,
            phase: Phase::Over,
            pair: 0,
            step: 0,
            flow: None,
            output: Vec::new(),
            total: 0,
        };
        assert(run@.output =~= Seq::empty());
        let inbetweens: usize = params.effective_inbetweens();
        let given: usize = run.multipliers.len();
        if !params.show_motion_vectors && (inbetweens == usize::MAX || given != inbetweens + 1) {
            return run.fail(Fault::Schedule);
        }
        let per_pair: usize = if params.show_motion_vectors {
            1
        } else {
            inbetweens + 1
        };
        match count.checked_mul(per_pair) {
            None => run.fail(Fault::TooLong),
            Some(total) => {
                let run = Run {
                    frames: run.frames,
                    params,
                    multipliers: run.multipliers,
                    phase: Phase::Polling,
                    pair: 0,
                    step: 0,
                    flow: None,
                    output: run.output,
                    total,
                };
                let mut progress: Vec<Progress> = Vec::new();
                progress.push(Progress::Started);
                let step = Step {
                    progress,
                    error: ErrorSignal::Clear,
                    result: None,
                    request: Request::PollCancel,
                };
                (Pipeline { run }, step)
            },
        }
    }

    /// Takes the host's answer and makes the transition that it causes.
    pub fn handle(self, event: Event) -> (r: (Pipeline, Step))
        ensures
            (r.0@, r.1@) == self@.react(event@),
            r.0@.consistent(),
    {
        match event {
            Event::CancelPolled { pending } => self.cancel_polled(pending),
            Event::FlowComputed(flow) => self.flow_computed(flow),
            Event::FlowFailed(message) => self.flow_failed(message),
            Event::Coloured(colours) => self.coloured(colours),
            Event::Displaced(samples) => self.displaced(samples),
            Event::Panicked(message) => self.panicked(message),
        }
    }

    /// Tells the machine whether fresher input is pending.
    pub fn cancel_polled(self, pending: bool) -> (r: (Pipeline, Step))
        ensures
            (r.0@, r.1@) == self@.cancel_polled(pending),
            r.0@.consistent(),
    {
        proof {
            use_type_invariant(&self);
        }
        let run = self.run;
        match run.phase {
            Phase::Polling => {},
            _ => {
                return run.out_of_turn();
            },
        }
        if pending {
            let step = Step {
                progress: Vec::new(),
                error: ErrorSignal::Silent,
                result: None,
                request: Request::Stop,
            };
            return (run.halt(), step);
        }
        if run.flow.is_some() {
            return run.entry();
        }
        let count: usize = run.frames.len();
        assert(run.pair + 1 < count);
        let first_width: u32 = run.frames[run.pair].width();
        let first_height: u32 = run.frames[run.pair].height();
        let second_width: u32 = run.frames[run.pair + 1].width();
        let second_height: u32 = run.frames[run.pair + 1].height();
        if first_width != second_width || first_height != second_height {
            return run.fail(
                Fault::SizeMismatch { first_width, first_height, second_width, second_height },
            );
        }
        match ImageProcessor::do_optical_flow(&run.params.optflow_alg) {
            Err(fault) => run.fail(fault),
            Ok(call) => {
                let run = Run {
                    frames: run.frames,
                    params: run.params,
                    multipliers: run.multipliers,
                    phase: Phase::Flowing,
                    pair: run.pair,
                    step: run.step,
                    flow: run.flow,
                    output: run.output,
                    total: run.total,
                };
                let step = Step {
                    progress: Vec::new(),
                    error: ErrorSignal::Silent,
                    result: None,
                    request: Request::ComputeFlow { call },
                };
                (Pipeline { run }, step)
            },
        }
    }

    /// Tells the machine that the flow capability failed, with its message.
    pub fn flow_failed(self, message: String) -> (r: (Pipeline, Step))
        ensures
            (r.0@, r.1@) == self@.flow_failed(message),
            r.0@.consistent(),
    {
        proof {
            use_type_invariant(&self);
        }
        let run = self.run;
        match run.phase {
            Phase::Flowing => run.fail(Fault::Flow(message)),
            _ => run.out_of_turn(),
        }
    }

    /// Tells the machine that the host's own work broke down, with what is
    /// known of the cause.
    pub fn panicked(self, message: String) -> (r: (Pipeline, Step))
        ensures
            (r.0@, r.1@) == self@.panicked(message),
            r.0@.consistent(),
    {
        proof {
            use_type_invariant(&self);
        }
        let run = self.run;
        match run.phase {
            Phase::Over => run.out_of_turn(),
            _ => run.fail(Fault::Panicked(message)),
        }
    }

    /// Hands the machine the motion field of the current pair.
    pub fn flow_computed(self, flow: MotionField) -> (r: (Pipeline, Step))
        ensures
            (r.0@, r.1@) == self@.flow_computed(flow@),
            r.0@.consistent(),
    {
        proof {
            use_type_invariant(&self);
        }
        let run = self.run;
        match run.phase {
            Phase::Flowing => {},
            _ => {
                return run.out_of_turn();
            },
        }
        if flow.width() != run.frames[run.pair].width() || flow.height()
            != run.frames[run.pair].height() {
            return run.fail(Fault::FieldSize);
        }
        if run.params.show_motion_vectors {
            let run = Run {
                frames: run.frames,
                params: run.params,
                multipliers: run.multipliers,
                phase: Phase::Colouring,
                pair: run.pair,
                step: run.step,
                flow: Some(flow),
                output: run.output,
                total: run.total,
            };
            let step = Step {
                progress: Vec::new(),
                error: ErrorSignal::Silent,
                result: None,
                request: Request::Colourise,
            };
            (Pipeline { run }, step)
        } else {
            let run = Run {
                frames: run.frames,
                params: run.params,
                multipliers: run.multipliers,
                phase: Phase::Flowing,
                pair: run.pair,
                step: run.step,
                flow: Some(flow),
                output: run.output,
                total: run.total,
            };
            run.entry()
        }
    }

    /// Hands the machine one colour for each vector of the current motion field.
    pub fn coloured(self, colours: Vec<Rgb>) -> (r: (Pipeline, Step))
        ensures
            (r.0@, r.1@) == self@.coloured(colours@),
            r.0@.consistent(),
    {
        proof {
            use_type_invariant(&self);
        }
        let run = self.run;
        match run.phase {
            Phase::Colouring => {},
            _ => {
                return run.out_of_turn();
            },
        }
        let picture: Option<Frame> = match &run.flow {
            Some(field) => flow_mat_to_frame(field, &colours),
            None => None,
        };
        match picture {
            None => run.fail(Fault::Colours),
            Some(picture) => {
                run.emit(picture)
            },
        }
    }

    /// Hands the machine, for each pixel, the rounded position that the
    /// current motion field points back to under the multiplier asked for.
    pub fn displaced(self, samples: Vec<Sample>) -> (r: (Pipeline, Step))
        ensures
            (r.0@, r.1@) == self@.displaced(samples@),
            r.0@.consistent(),
    {
        proof {
            use_type_invariant(&self);
        }
        let run = self.run;
        match run.phase {
            Phase::Displacing => {},
            _ => {
                return run.out_of_turn();
            },
        }
        let frame: Option<Frame> = match &run.flow {
            Some(field) => ImageProcessor::apply_flow_to(&run.frames[run.pair], field, &samples),
            None => None,
        };
        match frame {
            None => run.fail(Fault::Samples),
            Some(frame) => {
                run.emit(frame)
            },
        }
    }

    /// Where the run stands.
    pub fn phase(&self) -> (r: Phase)
        ensures
            r == self@.phase,
            self@.consistent(),
    {
        proof {
            use_type_invariant(self);
        }
        self.run.phase
    }

    /// The two frames of the pair that is being worked on, unless the run is over.
    pub fn pair(&self) -> (r: Option<(&Frame, &Frame)>)
        ensures
            r is Some <==> self@.phase != Phase::Over,
            r matches Some(pair) ==> pair.0@ == self@.first() && pair.1@ == self@.second(),
    {
        proof {
            use_type_invariant(self);
        }
        match self.run.phase {
            Phase::Over => None,
            _ => {
                let frames = self.run.frames.as_slice();
                let count: usize = frames.len();
                assert(self.run.pair + 2 <= count);
                let window = vstd::slice::slice_subrange(frames, self.run.pair, self.run.pair + 2);
                Some(array_to_pair(window))
            },
        }
    }

    /// The parameters of the run.
    pub fn params(&self) -> (r: ImgParams)
        ensures
            r == self@.params,
    {
        self.run.params
    }

    /// The motion field of the current pair, once it has arrived.
    pub fn flow(&self) -> (r: Option<&MotionField>)
        ensures
            r is Some <==> self@.flow is Some,
            r is Some ==> r->0@ == self@.flow->0,
    {
        match &self.run.flow {
            Some(field) => Some(field),
            None => None,
        }
    }
}

} // verus!
