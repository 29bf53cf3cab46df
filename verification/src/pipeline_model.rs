//! The mathematical model of an interpolation run: its states, what each
//! answer of the host does to it, and what it hands to the host in turn.
use vstd::prelude::*;
use crate::datatypes::{near_zero_bits, FlowAlg, ImgParams};
use crate::frame::{Frame, FrameView};
use crate::motion::{pictured, warped, MotionFieldView, Rgb, Sample};
use crate::pipeline::{ErrorSignal, Fault, Phase, Progress, Request};

verus! {

/// The views of a sequence of frames.
pub open spec fn views(frames: Seq<Frame>) -> Seq<FrameView> {
    frames.map_values(|f: Frame| f@)
}

/// The pairing list of a sequence of frames: the sequence followed by a copy of
/// its first frame where the animation loops, of its last frame where it holds.
/// Pair `k` is made of the entries `k` and `k + 1`.
pub open spec fn pairing_list(frames: Seq<FrameView>, loop_seamlessly: bool) -> Seq<FrameView> {
    if frames.len() == 0 {
        frames
    } else if loop_seamlessly {
        frames.push(frames.first())
    } else {
        frames.push(frames.last())
    }
}

/// Whether `frame` is a backward warp of `source`: every pixel of it is
/// sampled from `source` along some motion field of the size of `source`.
pub open spec fn is_warp_of(frame: FrameView, source: FrameView) -> bool {
    exists|flow: MotionFieldView, samples: Seq<Sample>|
        flow.width == source.width && flow.height == source.height && frame == #[trigger] warped(
            source,
            flow,
            samples,
        )
}

/// Whether `frame` is a picture of some motion field of the size of `source`.
pub open spec fn is_picture_for(frame: FrameView, source: FrameView) -> bool {
    exists|flow: MotionFieldView, colours: Seq<Rgb>|
        flow.width == source.width && flow.height == source.height && frame == #[trigger] pictured(
            flow,
            colours,
        )
}

/// Whether `frame` is what a run owes for the schedule entry `entry` of a
/// pair whose first frame is `source`. It has the size of `source`. Where
/// frames are warped it is a backward warp of `source`, and `source` itself
/// where the multiplier of the entry is near zero. Where the motion is drawn
/// it is a picture of a motion field.
pub open spec fn fits(
    params: ImgParams,
    multipliers: Seq<u32>,
    frame: FrameView,
    source: FrameView,
    entry: int,
) -> bool {
    &&& frame.width == source.width
    &&& frame.height == source.height
    &&& params.show_motion_vectors ==> is_picture_for(frame, source)
    &&& !params.show_motion_vectors ==> is_warp_of(frame, source)
    &&& !params.show_motion_vectors && near_zero_bits(multipliers[entry]) ==> frame == source
}

/// What holds of the `k`-th frame that a run emits: it fits its entry of the
/// schedule and the pair it belongs to.
pub open spec fn faithful_at(
    frames: Seq<FrameView>,
    params: ImgParams,
    multipliers: Seq<u32>,
    output: Seq<FrameView>,
    k: int,
) -> bool {
    let per_pair = params.frames_per_pair() as int;
    fits(params, multipliers, output[k], frames[k / per_pair], k % per_pair)
}

/// Every emitted frame is faithful to the pair it belongs to.
pub open spec fn faithful(
    frames: Seq<FrameView>,
    params: ImgParams,
    multipliers: Seq<u32>,
    output: Seq<FrameView>,
) -> bool {
    forall|k: int|
        0 <= k < output.len() ==> #[trigger] faithful_at(frames, params, multipliers, output, k)
}

/// What a transition hands to the host, as mathematical values.
pub struct StepView {
    pub progress: Seq<Progress>,
    pub error: ErrorSignal,
    pub result: Option<Seq<FrameView>>,
    pub request: Request,
}

impl StepView {
    /// A step that forwards nothing.
    pub open spec fn quiet(request: Request) -> StepView {
        StepView { progress: Seq::empty(), error: ErrorSignal::Silent, result: None, request }
    }
}

/// The mathematical value of a run.
pub struct PipelineView {
    /// The pairing list.
    pub frames: Seq<FrameView>,
    pub params: ImgParams,
    /// The schedule, each fraction scaled by the configured multiplier.
    pub multipliers: Seq<u32>,
    pub phase: Phase,
    /// The pair that is being worked on.
    pub pair: nat,
    /// The schedule entry that is being worked on.
    pub step: nat,
    /// The motion field of the current pair, once it is known.
    pub flow: Option<MotionFieldView>,
    /// The frames emitted so far.
    pub output: Seq<FrameView>,
}

impl PipelineView {
    /// The number of pairs of the run.
    pub open spec fn pairs(self) -> int {
        self.frames.len() - 1
    }

    /// The number of frames that the whole run emits.
    pub open spec fn total(self) -> int {
        self.pairs() * self.params.frames_per_pair()
    }

    /// The first frame of the current pair.
    pub open spec fn first(self) -> FrameView {
        self.frames[self.pair as int]
    }

    /// The second frame of the current pair.
    pub open spec fn second(self) -> FrameView {
        self.frames[self.pair as int + 1]
    }

    /// What holds of every run that the transitions can reach.
    pub open spec fn consistent(self) -> bool {
        self.phase != Phase::Over ==> {
            &&& self.frames.len() >= 2
            &&& !self.params.show_motion_vectors ==> self.multipliers.len()
                == self.params.schedule_len()
            &&& self.pair < self.pairs()
            &&& self.total() <= usize::MAX
            &&& self.output.len() == self.pair * self.params.frames_per_pair() + self.step
            &&& self.step < self.params.frames_per_pair()
            &&& faithful(self.frames, self.params, self.multipliers, self.output)
            &&& self.flow matches Some(flow) ==> flow.width == self.first().width && flow.height
                == self.first().height
            &&& self.phase == Phase::Polling ==> (self.flow is None <==> self.step == 0)
            &&& self.phase == Phase::Flowing ==> self.step == 0 && self.flow is None
                && self.params.optflow_alg != FlowAlg::Invalid && self.second().width
                == self.first().width && self.second().height == self.first().height
            &&& self.phase == Phase::Colouring ==> self.params.show_motion_vectors
                && self.flow is Some
            &&& self.phase == Phase::Displacing ==> !self.params.show_motion_vectors
                && self.flow is Some && !near_zero_bits(self.multipliers[self.step as int])
        }
    }

    /// Whether `request` is what a run in this state waits for: a poll before
    /// a frame is made, the motion field of a pair that was checked, colours
    /// or samples for the motion field at hand, and nothing once it is over.
    /// Samples are never asked for under a multiplier near zero.
    pub open spec fn asks_for(self, request: Request) -> bool {
        match request {
            Request::PollCancel => self.phase == Phase::Polling,
            Request::ComputeFlow { call } => self.phase == Phase::Flowing && call
                == self.params.optflow_alg.call(),
            Request::Colourise => self.phase == Phase::Colouring,
            Request::Displace { multiplier } => self.phase == Phase::Displacing && multiplier
                == self.multipliers[self.step as int] && !near_zero_bits(multiplier),
            Request::Stop => self.phase == Phase::Over,
        }
    }

    /// Whether `output` is all that the run has to emit.
    pub open spec fn complete(self, output: Seq<FrameView>) -> bool {
        &&& output.len() == self.total()
        &&& faithful(self.frames, self.params, self.multipliers, output)
    }

    /// The run once it is over: it keeps neither motion field nor output.
    pub open spec fn over(self) -> PipelineView {
        PipelineView {
            phase: Phase::Over,
            pair: 0,
            step: 0,
            flow: None,
            output: Seq::empty(),
            ..self
        }
    }

    /// The run given up for `fault`.
    pub open spec fn failed(self, fault: Fault) -> (PipelineView, StepView) {
        (
            self.over(),
            StepView {
                progress: Seq::empty(),
                error: ErrorSignal::Raise(fault),
                result: None,
                request: Request::Stop,
            },
        )
    }

    /// The answer to something that was not asked: a run that is over stays
    /// so, any other is given up.
    pub open spec fn out_of_turn(self) -> (PipelineView, StepView) {
        if self.phase == Phase::Over {
            (self, StepView::quiet(Request::Stop))
        } else {
            self.failed(Fault::OutOfTurn)
        }
    }

    /// A new run on `frames`. Without frames there is nothing to do and
    /// nothing to report. Where frames are warped, a schedule of the wrong
    /// length is a fault; so is more output than can be counted. Otherwise
    /// the run reports its start, clears the error and asks whether it is
    /// already superseded.
    pub open spec fn start(frames: Seq<FrameView>, params: ImgParams, multipliers: Seq<u32>) -> (
        PipelineView,
        StepView,
    ) {
        let idle = PipelineView {
            frames: pairing_list(frames, params.loop_seamlessly),
            params,
            multipliers,
            phase: Phase::Over,
            pair: 0,
            step: 0,
            flow: None,
            output: Seq::empty(),
        };
        if frames.len() == 0 {
            (idle, StepView::quiet(Request::Stop))
        } else if !params.show_motion_vectors && multipliers.len() != params.schedule_len() {
            idle.failed(Fault::Schedule)
        } else if frames.len() * params.frames_per_pair() > usize::MAX {
            idle.failed(Fault::TooLong)
        } else {
            (
                PipelineView { phase: Phase::Polling, ..idle },
                StepView {
                    progress: seq![Progress::Started],
                    error: ErrorSignal::Clear,
                    result: None,
                    request: Request::PollCancel,
                },
            )
        }
    }

    /// The pair is complete. After the last pair the run finishes and hands
    /// out its frames; otherwise the next pair begins with a poll.
    pub open spec fn next_pair(self, marks: Seq<Progress>) -> (PipelineView, StepView) {
        if self.pair + 1 == self.pairs() {
            (
                self.over(),
                StepView {
                    progress: marks.push(Progress::Finished),
                    error: ErrorSignal::Silent,
                    result: Some(self.output),
                    request: Request::Stop,
                },
            )
        } else {
            (
                PipelineView {
                    phase: Phase::Polling,
                    pair: self.pair + 1,
                    step: 0,
                    flow: None,
                    ..self
                },
                StepView {
                    progress: marks,
                    error: ErrorSignal::Silent,
                    result: None,
                    request: Request::PollCancel,
                },
            )
        }
    }

    /// Emits `frame` for the current entry of the schedule and marks the
    /// progress. If the pair owes more frames the run polls before the next;
    /// otherwise the pair is complete.
    pub open spec fn emit(self, frame: FrameView) -> (PipelineView, StepView) {
        let mark = Progress::Advanced {
            done: (self.output.len() + 1) as usize,
            total: self.total() as usize,
        };
        let emitted = PipelineView { output: self.output.push(frame), ..self };
        if self.step + 1 < self.params.frames_per_pair() {
            (
                PipelineView { phase: Phase::Polling, step: self.step + 1, ..emitted },
                StepView {
                    progress: seq![mark],
                    error: ErrorSignal::Silent,
                    result: None,
                    request: Request::PollCancel,
                },
            )
        } else {
            emitted.next_pair(seq![mark])
        }
    }

    /// Works on the current entry of the schedule. Under a multiplier near
    /// zero nothing moves: the first frame of the pair is emitted unchanged
    /// and nothing is asked of the host. Under any other multiplier the run
    /// needs samples.
    pub open spec fn entry(self) -> (PipelineView, StepView) {
        let multiplier = self.multipliers[self.step as int];
        if near_zero_bits(multiplier) {
            self.emit(self.first())
        } else {
            (
                PipelineView { phase: Phase::Displacing, ..self },
                StepView::quiet(Request::Displace { multiplier }),
            )
        }
    }

    /// The host has polled the update queue. Pending input ends the run
    /// without a word. Otherwise, before a pair, the pair is checked, frame
    /// sizes first, and its motion field is asked for; within a pair the next
    /// entry of the schedule is worked on.
    pub open spec fn cancel_polled(self, pending: bool) -> (PipelineView, StepView) {
        if self.phase != Phase::Polling {
            self.out_of_turn()
        } else if pending {
            (self.over(), StepView::quiet(Request::Stop))
        } else if self.flow is Some {
            self.entry()
        } else if self.first().width != self.second().width || self.first().height
            != self.second().height {
            self.failed(
                Fault::SizeMismatch {
                    first_width: self.first().width as u32,
                    first_height: self.first().height as u32,
                    second_width: self.second().width as u32,
                    second_height: self.second().height as u32,
                },
            )
        } else if self.params.optflow_alg == FlowAlg::Invalid {
            self.failed(Fault::UnknownAlgorithm)
        } else {
            (
                PipelineView { phase: Phase::Flowing, ..self },
                StepView::quiet(Request::ComputeFlow { call: self.params.optflow_alg.call() }),
            )
        }
    }

    /// The flow capability has failed: the run is given up with its message.
    pub open spec fn flow_failed(self, message: String) -> (PipelineView, StepView) {
        if self.phase != Phase::Flowing {
            self.out_of_turn()
        } else {
            self.failed(Fault::Flow(message))
        }
    }

    /// The host's own work has broken down: the run is given up with what is
    /// known of the cause.
    pub open spec fn panicked(self, message: String) -> (PipelineView, StepView) {
        if self.phase == Phase::Over {
            self.out_of_turn()
        } else {
            self.failed(Fault::Panicked(message))
        }
    }

    /// The motion field of the current pair has arrived. One of another size
    /// than the frames is a fault. To draw it the machine asks for colours; to
    /// warp along it the machine works on the first entry of the schedule.
    pub open spec fn flow_computed(self, flow: MotionFieldView) -> (PipelineView, StepView) {
        if self.phase != Phase::Flowing {
            self.out_of_turn()
        } else if flow.width != self.first().width || flow.height != self.first().height {
            self.failed(Fault::FieldSize)
        } else if self.params.show_motion_vectors {
            (
                PipelineView { phase: Phase::Colouring, flow: Some(flow), ..self },
                StepView::quiet(Request::Colourise),
            )
        } else {
            (PipelineView { flow: Some(flow), ..self }).entry()
        }
    }

    /// The colours of the current motion field have arrived: its picture is
    /// the one frame of this pair.
    pub open spec fn coloured(self, colours: Seq<Rgb>) -> (PipelineView, StepView) {
        if self.phase != Phase::Colouring {
            self.out_of_turn()
        } else if colours.len() != self.flow->0.vectors.len() {
            self.failed(Fault::Colours)
        } else {
            self.emit(pictured(self.flow->0, colours))
        }
    }

    /// The samples of the current schedule entry have arrived: the warped
    /// frame is emitted.
    pub open spec fn displaced(self, samples: Seq<Sample>) -> (PipelineView, StepView) {
        if self.phase != Phase::Displacing {
            self.out_of_turn()
        } else if samples.len() != self.first().pixels.len() {
            self.failed(Fault::Samples)
        } else {
            self.emit(warped(self.first(), self.flow->0, samples))
        }
    }
}

/// An answer of the host, as mathematical values.
pub enum EventView {
    CancelPolled { pending: bool },
    FlowComputed(MotionFieldView),
    FlowFailed(String),
    Coloured(Seq<Rgb>),
    Displaced(Seq<Sample>),
    Panicked(String),
}

impl PipelineView {
    /// The transition that an answer of the host causes.
    pub open spec fn react(self, event: EventView) -> (PipelineView, StepView) {
        match event {
            EventView::CancelPolled { pending } => self.cancel_polled(pending),
            EventView::FlowComputed(flow) => self.flow_computed(flow),
            EventView::FlowFailed(message) => self.flow_failed(message),
            EventView::Coloured(colours) => self.coloured(colours),
            EventView::Displaced(samples) => self.displaced(samples),
            EventView::Panicked(message) => self.panicked(message),
        }
    }

    /// The run after the host has given the `events` one after the other.
    pub open spec fn replay(self, events: Seq<EventView>) -> PipelineView
        decreases events.len(),
    {
        if events.len() == 0 {
            self
        } else {
            self.replay(events.drop_last()).react(events.last()).0
        }
    }

    /// What the run hands to the host for each of the `events`.
    pub open spec fn steps(self, events: Seq<EventView>) -> Seq<StepView>
        decreases events.len(),
    {
        if events.len() == 0 {
            Seq::empty()
        } else {
            self.steps(events.drop_last()).push(
                self.replay(events.drop_last()).react(events.last()).1,
            )
        }
    }
}

} // verus!
