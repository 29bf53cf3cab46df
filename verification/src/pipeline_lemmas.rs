//! What holds of every run: the transitions keep a run consistent, a run that
//! finishes hands out exactly the frames it owes, and no run goes on for ever.
use vstd::prelude::*;
use vstd::arithmetic::div_mod::lemma_fundamental_div_mod_converse;
use crate::datatypes::{finite_bits, lemma_near_zero, near_zero_bits, BVector2, ImgParams};
use crate::frame::FrameView;
use crate::motion::{pictured, warped, MotionFieldView, Sample};
use crate::pipeline::{ErrorSignal, Phase, Progress, Request};
use crate::pipeline_model::{
    faithful, faithful_at, fits, is_picture_for, is_warp_of, pairing_list, EventView,
    PipelineView, StepView,
};

verus! {

/// The frame at position `pair * per_pair + step` belongs to pair `pair` and
/// to schedule entry `step`, and lies before the end of the run.
pub(crate) proof fn lemma_slot(pair: int, step: int, per_pair: int, pairs: int)
    requires
        0 <= pair < pairs,
        0 <= step < per_pair,
    ensures
        (pair * per_pair + step) / per_pair == pair,
        (pair * per_pair + step) % per_pair == step,
        0 <= pair * per_pair,
        pair * per_pair + step < pairs * per_pair,
        pair * per_pair + per_pair == (pair + 1) * per_pair,
        pair * per_pair + per_pair <= pairs * per_pair,
{
    lemma_fundamental_div_mod_converse(pair * per_pair + step, per_pair, pair, step);
    assert(pair * per_pair + per_pair <= pairs * per_pair) by (nonlinear_arith)
        requires
            pair + 1 <= pairs,
            per_pair > 0,
    ;
    assert(pair * per_pair >= 0) by (nonlinear_arith)
        requires
            pair >= 0,
            per_pair > 0,
    ;
    assert(pair * per_pair + per_pair == (pair + 1) * per_pair) by (nonlinear_arith);
}

/// A frame is a backward warp of itself: along a motion field without any
/// finite vector every pixel stays where it is.
pub proof fn lemma_copy_is_warp(source: FrameView)
    ensures
        is_warp_of(source, source),
{
    let still = BVector2 { x: 0x7f80_0000, y: 0 };
    assert(!finite_bits(0x7f80_0000)) by {
        assert(0x7f80_0000u32 & 0x7fff_ffff == 0x7f80_0000) by (bit_vector);
    }
    let flow = MotionFieldView {
        width: source.width,
        height: source.height,
        vectors: Seq::new(source.pixels.len(), |i: int| still),
    };
    let samples = Seq::<Sample>::empty();
    assert(warped(source, flow, samples).pixels =~= source.pixels);
}

/// Emitting one more faithful frame keeps the output faithful.
pub(crate) proof fn lemma_push_faithful(
    frames: Seq<FrameView>,
    params: ImgParams,
    multipliers: Seq<u32>,
    output: Seq<FrameView>,
    frame: FrameView,
    pair: int,
    step: int,
)
    requires
        faithful(frames, params, multipliers, output),
        0 <= pair,
        0 <= step < params.frames_per_pair(),
        output.len() == pair * params.frames_per_pair() + step,
        fits(params, multipliers, frame, frames[pair], step),
    ensures
        faithful(frames, params, multipliers, output.push(frame)),
{
    let longer = output.push(frame);
    assert forall|k: int| 0 <= k < longer.len() implies #[trigger] faithful_at(
        frames,
        params,
        multipliers,
        longer,
        k,
    ) by {
        if k < output.len() {
            assert(faithful_at(frames, params, multipliers, output, k));
        } else {
            lemma_slot(pair, step, params.frames_per_pair() as int, pair + 1);
        }
    }
}

/// What holds of a run while it works on a pair, in whatever phase: the
/// schedule fits the parameters, the pair exists, and the output holds the
/// frames of the pairs before it and those of the entries before the current
/// one, all faithful.
pub open spec fn at_work(run: PipelineView) -> bool {
    &&& run.phase != Phase::Over
    &&& run.frames.len() >= 2
    &&& !run.params.show_motion_vectors ==> run.multipliers.len() == run.params.schedule_len()
    &&& run.pair < run.pairs()
    &&& run.total() <= usize::MAX
    &&& run.output.len() == run.pair * run.params.frames_per_pair() + run.step
    &&& run.step < run.params.frames_per_pair()
    &&& faithful(run.frames, run.params, run.multipliers, run.output)
    &&& run.flow matches Some(flow) ==> flow.width == run.first().width && flow.height
        == run.first().height
}

/// What a step that comes out of a consistent run is like. The run stays
/// consistent and asks for what it waits for. A result ends the run, comes
/// without an error and is all that the run owes. An error ends the run and
/// comes without a result.
pub open spec fn sound(run: PipelineView, next: PipelineView, step: StepView) -> bool {
    &&& next.consistent()
    &&& next.asks_for(step.request)
    &&& next.frames == run.frames
    &&& next.params == run.params
    &&& next.multipliers == run.multipliers
    &&& step.result matches Some(output) ==> run.complete(output)
    &&& step.result is Some ==> next.phase == Phase::Over && step.error == ErrorSignal::Silent
    &&& step.error is Raise ==> next.phase == Phase::Over && step.progress.len() == 0
}

/// Closing a pair whose frames are all emitted is sound; the run ends here
/// exactly after its last pair, and then with a result and the final mark.
pub(crate) proof fn lemma_next_pair(run: PipelineView, marks: Seq<Progress>)
    requires
        run.phase != Phase::Over,
        run.frames.len() >= 2,
        !run.params.show_motion_vectors ==> run.multipliers.len() == run.params.schedule_len(),
        run.pair < run.pairs(),
        run.total() <= usize::MAX,
        run.output.len() == (run.pair + 1) * run.params.frames_per_pair(),
        faithful(run.frames, run.params, run.multipliers, run.output),
    ensures
        sound(run, run.next_pair(marks).0, run.next_pair(marks).1),
        run.next_pair(marks).1.error == ErrorSignal::Silent,
        run.next_pair(marks).1.result is Some <==> run.pair + 1 == run.pairs(),
        run.next_pair(marks).1.result is Some <==> run.next_pair(marks).0.phase == Phase::Over,
        run.next_pair(marks).1.result is Some ==> run.next_pair(marks).1.progress == marks.push(
            Progress::Finished,
        ),
        run.next_pair(marks).1.result is None ==> run.next_pair(marks).1.progress == marks
            && run.next_pair(marks).0.output == run.output && run.next_pair(marks).0.pair
            == run.pair + 1 && run.next_pair(marks).0.step == 0 && run.next_pair(marks).0.phase
            == Phase::Polling,
{
}

/// Emitting a frame that fits the current entry is sound. The step marks the
/// one frame it emits; the run goes on to the next entry of the pair, to the
/// next pair, or ends with its result.
pub(crate) proof fn lemma_emit(run: PipelineView, frame: FrameView)
    requires
        at_work(run),
        fits(run.params, run.multipliers, frame, run.first(), run.step as int),
        !run.params.show_motion_vectors ==> run.flow is Some,
    ensures
        sound(run, run.emit(frame).0, run.emit(frame).1),
        run.emit(frame).1.error == ErrorSignal::Silent,
        run.emit(frame).1.result is Some <==> run.emit(frame).0.phase == Phase::Over,
        emitted(run.emit(frame).0, run.emit(frame).1) == run.output.push(frame),
        run.emit(frame).1.result is Some ==> run.emit(frame).1.progress == counted(
            run.output.len(),
            1,
            run.total(),
        ).push(Progress::Finished),
        run.emit(frame).1.result is None ==> run.emit(frame).1.progress == counted(
            run.output.len(),
            1,
            run.total(),
        ),
        run.emit(frame).1.result is None ==> run.emit(frame).0.phase == Phase::Polling && ((
        run.emit(frame).0.pair == run.pair && run.emit(frame).0.step == run.step + 1) || (
        run.emit(frame).0.pair == run.pair + 1 && run.emit(frame).0.step == 0)),
{
    let per_pair = run.params.frames_per_pair() as int;
    let mark = Progress::Advanced {
        done: (run.output.len() + 1) as usize,
        total: run.total() as usize,
    };
    let pushed = PipelineView { output: run.output.push(frame), ..run };
    lemma_push_faithful(
        run.frames,
        run.params,
        run.multipliers,
        run.output,
        frame,
        run.pair as int,
        run.step as int,
    );
    lemma_slot(run.pair as int, run.step as int, per_pair, run.pairs());
    if run.step + 1 >= per_pair {
        lemma_next_pair(pushed, seq![mark]);
    }
}

/// Working on an entry of the schedule is sound: under a multiplier near
/// zero the first frame of the pair is emitted unchanged, under any other the
/// run asks for samples and emits nothing.
pub(crate) proof fn lemma_entry(run: PipelineView)
    requires
        at_work(run),
        !run.params.show_motion_vectors,
        run.flow is Some,
    ensures
        sound(run, run.entry().0, run.entry().1),
        run.entry().1.error == ErrorSignal::Silent,
        near_zero_bits(run.multipliers[run.step as int]) ==> run.entry() == run.emit(run.first()),
        !near_zero_bits(run.multipliers[run.step as int]) ==> run.entry().0 == (PipelineView {
            phase: Phase::Displacing,
            ..run
        }) && run.entry().1 == StepView::quiet(
            Request::Displace { multiplier: run.multipliers[run.step as int] },
        ),
{
    if near_zero_bits(run.multipliers[run.step as int]) {
        lemma_copy_is_warp(run.first());
        lemma_emit(run, run.first());
    }
}

/// A run starts consistent. Without frames it is over at once and reports
/// nothing; with frames it either begins with a poll or is given up.
pub proof fn lemma_start(frames: Seq<FrameView>, params: ImgParams, multipliers: Seq<u32>)
    ensures
        PipelineView::start(frames, params, multipliers).0.consistent(),
        PipelineView::start(frames, params, multipliers).1.result is None,
        frames.len() == 0 ==> PipelineView::start(frames, params, multipliers).1 == StepView::quiet(
            Request::Stop,
        ),
        PipelineView::start(frames, params, multipliers).0.phase == Phase::Polling
            || PipelineView::start(frames, params, multipliers).0.phase == Phase::Over,
        PipelineView::start(frames, params, multipliers).0.asks_for(
            PipelineView::start(frames, params, multipliers).1.request,
        ),
        PipelineView::start(frames, params, multipliers).0.phase == Phase::Polling
            <==> PipelineView::start(frames, params, multipliers).1.progress == seq![
            Progress::Started,
        ],
{
    let (run, step) = PipelineView::start(frames, params, multipliers);
    if run.phase != Phase::Over {
        assert(0 * params.frames_per_pair() + 0 == 0) by (nonlinear_arith);
    } else {
        assert(step.progress.len() == 0);
    }
}

/// Whatever the host answers, the step that comes out of a consistent run is
/// sound.
pub proof fn lemma_react(run: PipelineView, event: EventView)
    requires
        run.consistent(),
    ensures
        sound(run, run.react(event).0, run.react(event).1),
{
    if run.phase != Phase::Over {
        match event {
            EventView::CancelPolled { pending } => {
                if run.phase == Phase::Polling && !pending && run.flow is Some {
                    lemma_entry(run);
                }
            },
            EventView::FlowComputed(flow) => {
                if run.phase == Phase::Flowing && flow.width == run.first().width && flow.height
                    == run.first().height && !run.params.show_motion_vectors {
                    lemma_entry(PipelineView { flow: Some(flow), ..run });
                }
            },
            EventView::Coloured(colours) => {
                if run.phase == Phase::Colouring && colours.len() == run.flow->0.vectors.len() {
                    lemma_emit(run, pictured(run.flow->0, colours));
                }
            },
            EventView::Displaced(samples) => {
                if run.phase == Phase::Displacing && samples.len() == run.first().pixels.len() {
                    lemma_emit(run, warped(run.first(), run.flow->0, samples));
                }
            },
            _ => {},
        }
    }
}

/// A run that is over stays over: whatever the host answers, the run does not
/// change, forwards nothing and asks for nothing.
pub proof fn lemma_over_is_final(run: PipelineView, event: EventView)
    requires
        run.phase == Phase::Over,
    ensures
        run.react(event) == (run, StepView::quiet(Request::Stop)),
{
}

/// Fresher input that is found pending at a poll ends the run for good: that
/// step and every later one carries no result, no error and no progress mark.
pub proof fn lemma_cancelled_run_is_silent(run: PipelineView, later: Seq<EventView>)
    requires
        run.phase == Phase::Polling,
    ensures
        run.cancel_polled(true).1 == StepView::quiet(Request::Stop),
        run.cancel_polled(true).0.phase == Phase::Over,
        run.cancel_polled(true).0.replay(later) == run.cancel_polled(true).0,
        forall|i: int|
            0 <= i < later.len() ==> (#[trigger] run.cancel_polled(true).0.steps(later)[i])
                == StepView::quiet(Request::Stop),
        run.cancel_polled(true).0.steps(later).len() == later.len(),
    decreases later.len(),
{
    if later.len() > 0 {
        lemma_cancelled_run_is_silent(run, later.drop_last());
        lemma_over_is_final(run.cancel_polled(true).0, later.last());
    }
}

/// A run polls between any two frames that it makes: a step emits at most
/// one frame, and after a step that emits a frame and leaves the run going,
/// the run waits for a poll.
pub proof fn lemma_poll_between_frames(run: PipelineView, event: EventView)
    requires
        run.consistent(),
        run.phase != Phase::Over,
    ensures
        emitted(run.react(event).0, run.react(event).1).len() <= run.output.len() + 1,
        run.react(event).0.phase != Phase::Over && run.react(event).0.output.len()
            > run.output.len() ==> run.react(event).0.phase == Phase::Polling
            && run.react(event).1.request == Request::PollCancel,
{
    lemma_react(run, event);
    lemma_progress_counts_frames(run, event);
}

/// The frames that a run emits and the state it ends in are determined by the
/// frames, the parameters, the schedule and the answers of the host: two runs
/// that agree on these agree on every step.
pub proof fn lemma_same_inputs_same_run(
    frames: Seq<FrameView>,
    params: ImgParams,
    multipliers: Seq<u32>,
    events: Seq<EventView>,
    other_frames: Seq<FrameView>,
    other_params: ImgParams,
    other_multipliers: Seq<u32>,
    other_events: Seq<EventView>,
)
    requires
        frames == other_frames,
        params == other_params,
        multipliers == other_multipliers,
        events == other_events,
    ensures
        PipelineView::start(frames, params, multipliers) == PipelineView::start(
            other_frames,
            other_params,
            other_multipliers,
        ),
        PipelineView::start(frames, params, multipliers).0.replay(events) == PipelineView::start(
            other_frames,
            other_params,
            other_multipliers,
        ).0.replay(other_events),
        PipelineView::start(frames, params, multipliers).0.steps(events) == PipelineView::start(
            other_frames,
            other_params,
            other_multipliers,
        ).0.steps(other_events),
{
}

/// No transition changes the pairing list, the parameters or the schedule.
pub proof fn lemma_replay_keeps_inputs(run: PipelineView, events: Seq<EventView>)
    ensures
        run.replay(events).frames == run.frames,
        run.replay(events).params == run.params,
        run.replay(events).multipliers == run.multipliers,
    decreases events.len(),
{
    if events.len() > 0 {
        lemma_replay_keeps_inputs(run, events.drop_last());
    }
}

/// Every state that a run reaches is consistent, and every result on the way
/// has as many frames as the run owes.
pub proof fn lemma_replay(
    frames: Seq<FrameView>,
    params: ImgParams,
    multipliers: Seq<u32>,
    events: Seq<EventView>,
)
    ensures
        PipelineView::start(frames, params, multipliers).0.replay(events).consistent(),
        PipelineView::start(frames, params, multipliers).0.steps(events).len() == events.len(),
        forall|i: int|
            0 <= i < events.len() ==> ((#[trigger] PipelineView::start(
                frames,
                params,
                multipliers,
            ).0.steps(events)[i]).result matches Some(output) ==> output.len() == frames.len()
                * params.frames_per_pair()),
    decreases events.len(),
{
    let begun = PipelineView::start(frames, params, multipliers).0;
    lemma_start(frames, params, multipliers);
    if events.len() > 0 {
        let earlier = events.drop_last();
        lemma_replay(frames, params, multipliers, earlier);
        let before = begun.replay(earlier);
        lemma_react(before, events.last());
        lemma_replay_keeps_inputs(begun, earlier);
    }
}

/// The pairing list of `n` frames, `n` at least one, has `n` pairs. Each of
/// the first `n - 1` pairs joins a frame with its successor. The last pair
/// leads from the last frame back to the first where the animation loops, and
/// holds the last frame where it does not.
pub proof fn lemma_pairing_list(frames: Seq<FrameView>, loop_seamlessly: bool, k: int)
    requires
        0 <= k < frames.len(),
    ensures
        pairing_list(frames, loop_seamlessly).len() == frames.len() + 1,
        pairing_list(frames, loop_seamlessly)[k] == frames[k],
        k + 1 < frames.len() ==> pairing_list(frames, loop_seamlessly)[k + 1] == frames[k + 1],
        k + 1 == frames.len() && loop_seamlessly ==> pairing_list(frames, loop_seamlessly)[k + 1]
            == frames[0],
        k + 1 == frames.len() && !loop_seamlessly ==> pairing_list(frames, loop_seamlessly)[k + 1]
            == frames[k],
{
}

/// A run that began on `n` frames has `n` pairs and owes `n` frames for each
/// entry of the schedule, or `n` pictures where the motion field is drawn.
pub proof fn lemma_run_size(frames: Seq<FrameView>, params: ImgParams, multipliers: Seq<u32>)
    requires
        frames.len() > 0,
    ensures
        PipelineView::start(frames, params, multipliers).0.pairs() == frames.len(),
        PipelineView::start(frames, params, multipliers).0.total() == frames.len()
            * params.frames_per_pair(),
        params.show_motion_vectors ==> params.spec_effective_inbetweens() == 1
            && PipelineView::start(frames, params, multipliers).0.total() == frames.len(),
        !params.show_motion_vectors ==> PipelineView::start(frames, params, multipliers).0.total()
            == frames.len() * (params.inbetweens + 1),
{
    assert(frames.len() * 1 == frames.len()) by (nonlinear_arith);
}

/// In all that a run emits, the frame of pair `pair` at schedule entry
/// `entry` has the size of the first frame of the pair. Where frames are
/// warped it is a backward warp of that frame, and where the multiplier of
/// the entry is near zero it is that frame, pixel for pixel. Where the motion
/// is drawn it is a picture of a motion field.
pub proof fn lemma_emitted_frame(run: PipelineView, output: Seq<FrameView>, pair: int, entry: int)
    requires
        run.complete(output),
        0 <= pair < run.pairs(),
        0 <= entry < run.params.frames_per_pair(),
    ensures
        0 <= pair * run.params.frames_per_pair() + entry < output.len(),
        output[pair * run.params.frames_per_pair() + entry].width == run.frames[pair].width,
        output[pair * run.params.frames_per_pair() + entry].height == run.frames[pair].height,
        !run.params.show_motion_vectors && near_zero_bits(run.multipliers[entry]) ==> output[pair
            * run.params.frames_per_pair() + entry] == run.frames[pair],
        !run.params.show_motion_vectors ==> is_warp_of(
            output[pair * run.params.frames_per_pair() + entry],
            run.frames[pair],
        ),
        run.params.show_motion_vectors ==> is_picture_for(
            output[pair * run.params.frames_per_pair() + entry],
            run.frames[pair],
        ),
{
    let per_pair = run.params.frames_per_pair() as int;
    lemma_slot(pair, entry, per_pair, run.pairs());
    assert(faithful_at(
        run.frames,
        run.params,
        run.multipliers,
        output,
        pair * per_pair + entry,
    ));
}

/// A multiplier of zero, of either sign, warps nothing: the frame that a run
/// emits for it is the first frame of the pair, pixel for pixel.
pub proof fn lemma_zero_multiplier_is_copy(
    run: PipelineView,
    output: Seq<FrameView>,
    pair: int,
    entry: int,
)
    requires
        run.complete(output),
        !run.params.show_motion_vectors,
        0 <= pair < run.pairs(),
        0 <= entry < run.params.frames_per_pair(),
        run.multipliers[entry] == 0 || run.multipliers[entry] == 0x8000_0000,
    ensures
        output[pair * run.params.frames_per_pair() + entry] == run.frames[pair],
{
    lemma_near_zero(run.multipliers[entry]);
    lemma_emitted_frame(run, output, pair, entry);
}

/// How far a run is into the work on its pair: a poll, then either the
/// motion field and its colours, or for each entry of the schedule a poll
/// and samples, with the motion field after the first poll.
pub open spec fn place(run: PipelineView) -> int {
    match run.phase {
        Phase::Polling => 3 * (run.step as int),
        Phase::Flowing => 1,
        Phase::Colouring => 2,
        Phase::Displacing => 3 * (run.step as int) + 2,
        Phase::Over => 0,
    }
}

/// An upper bound of the number of answers that a run still takes before it
/// is over.
pub open spec fn answers_left(run: PipelineView) -> int {
    if run.phase == Phase::Over {
        0
    } else {
        (run.pairs() - run.pair) * (3 * run.params.frames_per_pair() + 3) - place(run)
    }
}

/// Whatever the host answers, the run comes closer to its end: no sequence of
/// answers keeps a run going for ever.
pub proof fn lemma_every_answer_advances(run: PipelineView, event: EventView)
    requires
        run.consistent(),
        run.phase != Phase::Over,
    ensures
        0 <= answers_left(run.react(event).0) < answers_left(run),
{
    let next = run.react(event).0;
    let weight = 3 * run.params.frames_per_pair() + 3;
    let left = run.pairs() - run.pair;
    lemma_react(run, event);
    lemma_progress_counts_frames(run, event);
    assert(left * weight >= weight) by (nonlinear_arith)
        requires
            left >= 1,
            weight >= 1,
    ;
    assert((left - 1) * weight == left * weight - weight) by (nonlinear_arith);
    if next.phase != Phase::Over {
        let next_left = next.pairs() - next.pair;
        assert(next_left * weight >= weight) by (nonlinear_arith)
            requires
                next_left >= 1,
                weight >= 1,
        ;
    }
}

/// The marks that count `count` frames from the frame after `from` on.
pub open spec fn counted(from: nat, count: nat, total: int) -> Seq<Progress> {
    Seq::new(
        count,
        |i: int| Progress::Advanced { done: (from + i + 1) as usize, total: total as usize },
    )
}

/// The frames that a run has emitted after a step: those that it hands out
/// with the step, or those that it keeps.
pub open spec fn emitted(next: PipelineView, step: StepView) -> Seq<FrameView> {
    match step.result {
        Some(output) => output,
        None => next.output,
    }
}

/// A step emits at most one frame, and its marks count the frames it emits,
/// so that progress never falls within a run and never passes the total. A
/// step that ends the run with a result adds the final mark; a step that ends
/// it otherwise has no mark and keeps no frame.
pub proof fn lemma_progress_counts_frames(run: PipelineView, event: EventView)
    requires
        run.consistent(),
        run.phase != Phase::Over,
    ensures
        ({
            let (next, step) = run.react(event);
            let before = run.output.len();
            if step.result is Some {
                &&& emitted(next, step).len() == run.total()
                &&& before + 1 == run.total()
                &&& step.progress == counted(before, 1, run.total()).push(Progress::Finished)
            } else if next.phase == Phase::Over {
                step.progress.len() == 0
            } else {
                &&& next.output.len() == before || next.output.len() == before + 1
                &&& next.output.len() <= run.total()
                &&& step.progress == counted(
                    before,
                    (next.output.len() - before) as nat,
                    run.total(),
                )
                &&& next.output.len() == before + 1 ==> next.phase == Phase::Polling
                &&& next.pair == run.pair || (next.pair == run.pair + 1 && next.phase
                    == Phase::Polling && next.step == 0)
                &&& next.pair == run.pair ==> place(next) > place(run)
            }
        }),
{
    lemma_react(run, event);
    lemma_slot(
        run.pair as int,
        run.step as int,
        run.params.frames_per_pair() as int,
        run.pairs(),
    );
    match event {
        EventView::CancelPolled { pending } => {
            if run.phase == Phase::Polling && !pending && run.flow is Some {
                lemma_entry(run);
                if near_zero_bits(run.multipliers[run.step as int]) {
                    lemma_copy_is_warp(run.first());
                    lemma_emit(run, run.first());
                }
            }
        },
        EventView::FlowComputed(flow) => {
            if run.phase == Phase::Flowing && flow.width == run.first().width && flow.height
                == run.first().height && !run.params.show_motion_vectors {
                let with_flow = PipelineView { flow: Some(flow), ..run };
                lemma_entry(with_flow);
                if near_zero_bits(run.multipliers[run.step as int]) {
                    lemma_copy_is_warp(run.first());
                    lemma_emit(with_flow, run.first());
                }
            }
        },
        EventView::Coloured(colours) => {
            if run.phase == Phase::Colouring && colours.len() == run.flow->0.vectors.len() {
                let picture = pictured(run.flow->0, colours);
                lemma_emit(run, picture);
            }
        },
        EventView::Displaced(samples) => {
            if run.phase == Phase::Displacing && samples.len() == run.first().pixels.len() {
                let frame = warped(run.first(), run.flow->0, samples);
                lemma_emit(run, frame);
            }
        },
        _ => {},
    }
}

} // verus!
