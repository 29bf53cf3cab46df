use bitmapflow::datatypes::{BVector2, FlowAlg, FlowCall, ImgParams};
use bitmapflow::frame::{Frame, Frames, Rgba};
use bitmapflow::image_processor::{ImageProcessor, ImageProcessorMessage};
use bitmapflow::motion::{MotionField, Rgb, Sample};
use bitmapflow::pipeline::{
    ErrorSignal, Event, Fault, Phase, Pipeline, Progress, Request, Step,
};

fn shaded(width: u32, height: u32, shade: u8) -> Frame {
    let pixels = (0..width * height)
        .map(|i| Rgba { r: shade, g: i as u8, b: (i * 3) as u8, a: 255 })
        .collect();
    Frame::new(width, height, pixels).unwrap()
}

fn three_frames() -> Frames {
    vec![shaded(4, 4, 10), shaded(4, 4, 20), shaded(4, 4, 30)]
}

fn simple_flow() -> FlowAlg {
    FlowAlg::SimpleFlow { layers: 3, averaging_block_size: 2, max_flow: 4 }
}

fn params(inbetweens: usize, loop_seamlessly: bool, show_motion_vectors: bool) -> ImgParams {
    ImgParams {
        inbetweens,
        loop_seamlessly,
        flow_multiplier: 1.0f32.to_bits(),
        optflow_alg: simple_flow(),
        show_motion_vectors,
    }
}

fn scaled(p: &ImgParams) -> Vec<u32> {
    p.flow_multipliers()
        .unwrap()
        .iter()
        .map(|f| {
            (f.numerator as f32 / f.denominator as f32 * f32::from_bits(p.flow_multiplier)).to_bits()
        })
        .collect()
}

fn constant_field(width: u32, height: u32, dx: f32, dy: f32) -> MotionField {
    MotionField::new(
        width,
        height,
        vec![BVector2 { x: dx.to_bits(), y: dy.to_bits() }; (width * height) as usize],
    )
    .unwrap()
}

fn displace(flow: &MotionField, multiplier: u32) -> Vec<Sample> {
    let m = f32::from_bits(multiplier);
    let mut samples = vec![];
    for y in 0..flow.height() {
        for x in 0..flow.width() {
            let v = flow.vectors()[(y * flow.width() + x) as usize];
            let (dx, dy) = (f32::from_bits(v.x), f32::from_bits(v.y));
            samples.push(Sample {
                x: (x as f32 - dx * m).round() as i32,
                y: (y as f32 - dy * m).round() as i32,
            });
        }
    }
    samples
}

struct Outcome {
    progress: Vec<Progress>,
    errors: Vec<ErrorSignal>,
    result: Option<Frames>,
    flow_calls: usize,
    displacements: usize,
    colourings: usize,
    polls: usize,
}

/// Runs the machine to its end with a host whose flow is the same everywhere
/// and that finds input pending at the poll numbered `cancel_at`.
fn drive(
    frames: Frames,
    p: ImgParams,
    multipliers: Vec<u32>,
    dx: f32,
    dy: f32,
    cancel_at: Option<usize>,
) -> Outcome {
    let mut out = Outcome {
        progress: vec![],
        errors: vec![],
        result: None,
        flow_calls: 0,
        displacements: 0,
        colourings: 0,
        polls: 0,
    };
    let (mut machine, mut step) = Pipeline::start(frames, p, multipliers);
    loop {
        out.progress.extend(step.progress.iter().copied());
        match step.error {
            ErrorSignal::Silent => {}
            ref signal => out.errors.push(signal.clone()),
        }
        if let Some(frames) = step.result.take() {
            assert!(out.result.is_none());
            out.result = Some(frames);
        }
        let event = match step.request {
            Request::Stop => break,
            Request::PollCancel => {
                out.polls += 1;
                Event::CancelPolled { pending: cancel_at == Some(out.polls) }
            }
            Request::ComputeFlow { call } => {
                assert_eq!(
                    call,
                    FlowCall::SimpleFlow { layers: 3, averaging_block_size: 2, max_flow: 4 }
                );
                out.flow_calls += 1;
                let (a, b) = machine.pair().unwrap();
                assert_eq!((a.width(), a.height()), (b.width(), b.height()));
                Event::FlowComputed(constant_field(a.width(), a.height(), dx, dy))
            }
            Request::Colourise => {
                out.colourings += 1;
                let n = machine.flow().unwrap().vectors().len();
                Event::Coloured(vec![Rgb { r: 1, g: 2, b: 3 }; n])
            }
            Request::Displace { multiplier } => {
                out.displacements += 1;
                Event::Displaced(displace(machine.flow().unwrap(), multiplier))
            }
        };
        let (next, s) = machine.handle(event);
        machine = next;
        step = s;
    }
    assert_eq!(machine.phase(), Phase::Over);
    assert!(machine.pair().is_none());
    out
}

#[test]
fn three_still_frames_with_one_inbetween_give_six_copies() {
    let p = params(1, false, false);
    let out = drive(three_frames(), p, scaled(&p), 0.0, 0.0, None);
    let frames = out.result.unwrap();
    let source = three_frames();
    assert_eq!(frames.len(), 6);
    for (i, frame) in frames.iter().enumerate() {
        assert_eq!(frame, &source[i / 2]);
    }
    assert_eq!(out.errors, vec![ErrorSignal::Clear]);
    assert_eq!(out.flow_calls, 3);
    assert_eq!(out.polls, 6);
    assert_eq!(out.displacements, 3);
    assert_eq!(
        out.progress,
        vec![
            Progress::Started,
            Progress::Advanced { done: 1, total: 6 },
            Progress::Advanced { done: 2, total: 6 },
            Progress::Advanced { done: 3, total: 6 },
            Progress::Advanced { done: 4, total: 6 },
            Progress::Advanced { done: 5, total: 6 },
            Progress::Advanced { done: 6, total: 6 },
            Progress::Finished,
        ]
    );
}

#[test]
fn moving_frames_are_warped_between_the_copies() {
    let p = params(1, false, false);
    let out = drive(three_frames(), p, scaled(&p), 2.0, 0.0, None);
    let frames = out.result.unwrap();
    let source = three_frames();
    assert_eq!(frames.len(), 6);
    for pair in 0..3 {
        assert_eq!(frames[2 * pair], source[pair]);
        let warped = &frames[2 * pair + 1];
        for y in 0..4 {
            assert_eq!(warped.get_pixel(0, y), source[pair].get_pixel(0, y));
            for x in 1..4 {
                assert_eq!(warped.get_pixel(x, y), source[pair].get_pixel(x - 1, y));
            }
        }
    }
}

#[test]
fn no_inbetweens_give_the_input_back() {
    let p = params(0, true, false);
    let out = drive(three_frames(), p, scaled(&p), 5.0, 5.0, None);
    assert_eq!(out.result, Some(three_frames()));
    assert_eq!(out.displacements, 0);
    assert_eq!(out.flow_calls, 3);
}

#[test]
fn zero_multiplier_skips_the_warp_for_every_entry() {
    let mut p = params(3, false, false);
    p.flow_multiplier = 0.0f32.to_bits();
    let out = drive(three_frames(), p, scaled(&p), 5.0, 5.0, None);
    let frames = out.result.unwrap();
    let source = three_frames();
    assert_eq!(frames.len(), 12);
    for (i, frame) in frames.iter().enumerate() {
        assert_eq!(frame, &source[i / 4]);
    }
    assert_eq!(out.displacements, 0);
}

#[test]
fn looping_pairs_the_last_frame_with_the_first() {
    let p = params(0, true, false);
    let (mut machine, _) = Pipeline::start(three_frames(), p, scaled(&p));
    let source = three_frames();
    let mut seen = vec![];
    for _ in 0..3 {
        {
            let (a, b) = machine.pair().unwrap();
            seen.push((a.clone(), b.clone()));
        }
        let (m, step) = machine.cancel_polled(false);
        assert!(matches!(step.request, Request::ComputeFlow { .. }));
        let (m, _) = m.flow_computed(constant_field(4, 4, 0.0, 0.0));
        machine = m;
    }
    assert_eq!(machine.phase(), Phase::Over);
    assert_eq!(
        seen,
        vec![
            (source[0].clone(), source[1].clone()),
            (source[1].clone(), source[2].clone()),
            (source[2].clone(), source[0].clone()),
        ]
    );
}

#[test]
fn holding_pairs_the_last_frame_with_itself() {
    let p = params(0, false, false);
    let (mut machine, _) = Pipeline::start(three_frames(), p, scaled(&p));
    let source = three_frames();
    let mut seen = vec![];
    for _ in 0..3 {
        {
            let (a, b) = machine.pair().unwrap();
            seen.push((a.clone(), b.clone()));
        }
        let (m, _) = machine.cancel_polled(false);
        let (m, _) = m.flow_computed(constant_field(4, 4, 0.0, 0.0));
        machine = m;
    }
    assert_eq!(machine.phase(), Phase::Over);
    assert_eq!(
        seen,
        vec![
            (source[0].clone(), source[1].clone()),
            (source[1].clone(), source[2].clone()),
            (source[2].clone(), source[2].clone()),
        ]
    );
}

#[test]
fn a_single_frame_has_one_pair() {
    let p = params(2, false, false);
    let out = drive(vec![shaded(2, 2, 1)], p, scaled(&p), 0.0, 0.0, None);
    assert_eq!(out.result.unwrap().len(), 3);
    assert_eq!(out.flow_calls, 1);
}

#[test]
fn no_frames_are_no_work() {
    let p = params(1, false, false);
    let (machine, step) = Pipeline::start(vec![], p, scaled(&p));
    assert_eq!(machine.phase(), Phase::Over);
    assert_eq!(
        step,
        Step { progress: vec![], error: ErrorSignal::Silent, result: None, request: Request::Stop }
    );
}

#[test]
fn a_run_begins_with_a_mark_a_cleared_error_and_a_poll() {
    let p = params(1, false, false);
    let (machine, step) = Pipeline::start(three_frames(), p, scaled(&p));
    assert_eq!(machine.phase(), Phase::Polling);
    assert_eq!(
        step,
        Step {
            progress: vec![Progress::Started],
            error: ErrorSignal::Clear,
            result: None,
            request: Request::PollCancel,
        }
    );
    assert_eq!(machine.params(), p);
    assert!(machine.flow().is_none());
}

#[test]
fn fresher_input_ends_the_run_without_a_word() {
    let p = params(1, false, false);
    let frames = vec![
        shaded(2, 2, 1),
        shaded(2, 2, 2),
        shaded(2, 2, 3),
        shaded(2, 2, 4),
        shaded(2, 2, 5),
    ];
    // the fourth poll comes midway through the second of five pairs
    let out = drive(frames, p, scaled(&p), 1.0, 0.0, Some(4));
    assert_eq!(out.result, None);
    assert_eq!(out.errors, vec![ErrorSignal::Clear]);
    assert_eq!(out.flow_calls, 2);
    assert_eq!(out.polls, 4);
    assert_eq!(out.displacements, 1);
    assert_eq!(
        out.progress,
        vec![
            Progress::Started,
            Progress::Advanced { done: 1, total: 10 },
            Progress::Advanced { done: 2, total: 10 },
            Progress::Advanced { done: 3, total: 10 },
        ]
    );
}

#[test]
fn fresher_input_is_noticed_before_every_frame() {
    let p = params(2, false, false);
    for cancel_at in 1..=9 {
        let out = drive(three_frames(), p, scaled(&p), 1.0, 0.0, Some(cancel_at));
        assert_eq!(out.result, None);
        assert_eq!(out.errors, vec![ErrorSignal::Clear]);
        assert_eq!(out.polls, cancel_at);
        // one frame is made after each poll that finds nothing pending
        assert_eq!(out.progress.len(), cancel_at);
    }
    let out = drive(three_frames(), p, scaled(&p), 1.0, 0.0, Some(10));
    assert_eq!(out.polls, 9);
    assert_eq!(out.result.unwrap().len(), 9);
}

#[test]
fn the_step_that_cancels_is_empty_and_the_run_stays_over() {
    let p = params(1, false, false);
    let (machine, _) = Pipeline::start(three_frames(), p, scaled(&p));
    let (machine, step) = machine.cancel_polled(true);
    let quiet =
        Step { progress: vec![], error: ErrorSignal::Silent, result: None, request: Request::Stop };
    assert_eq!(step, quiet);
    assert_eq!(machine.phase(), Phase::Over);
    let (machine, step) = machine.handle(Event::FlowComputed(constant_field(4, 4, 0.0, 0.0)));
    assert_eq!(step, quiet);
    let (machine, step) = machine.handle(Event::CancelPolled { pending: false });
    assert_eq!(step, quiet);
    let (machine, step) = machine.handle(Event::FlowFailed("late".to_string()));
    assert_eq!(step, quiet);
    let (machine, step) = machine.handle(Event::Coloured(vec![]));
    assert_eq!(step, quiet);
    let (machine, step) = machine.handle(Event::Displaced(vec![]));
    assert_eq!(step, quiet);
    assert_eq!(machine.phase(), Phase::Over);
}

#[test]
fn after_a_cancelled_run_the_next_uses_the_fresher_frames() {
    let mut worker = ImageProcessor::new();
    let p = params(0, false, false);
    worker.receive(
        ImageProcessor::submit_config(p).unwrap(),
        vec![ImageProcessor::submit_frames(three_frames())],
    );
    let (machine, _) = worker.begin(scaled(&p));
    let (machine, _) = machine.cancel_polled(false);
    let (machine, _) = machine.flow_computed(constant_field(4, 4, 0.0, 0.0));
    let (machine, step) = machine.cancel_polled(true);
    assert_eq!(machine.phase(), Phase::Over);
    assert_eq!(step.result, None);
    let fresher = vec![shaded(2, 2, 99)];
    worker.receive(ImageProcessor::submit_frames(fresher.clone()), vec![]);
    let (machine, _) = worker.begin(scaled(&p));
    let (a, b) = machine.pair().unwrap();
    assert_eq!((a, b), (&fresher[0], &fresher[0]));
    let (machine, _) = machine.cancel_polled(false);
    let (_, step) = machine.flow_computed(constant_field(2, 2, 0.0, 0.0));
    assert_eq!(step.result, Some(fresher));
}

#[test]
fn a_batch_applies_the_latest_config_and_frames_together() {
    let mut worker = ImageProcessor::new();
    let config1 = params(1, false, false);
    let config2 = params(2, true, false);
    worker.receive(
        ImageProcessorMessage::UpdatedImgParams(config1),
        vec![
            ImageProcessorMessage::UpdatedImgParams(config2),
            ImageProcessorMessage::UpdatedInputImage(three_frames()),
        ],
    );
    assert_eq!(worker.img_params(), config2);
    let (machine, step) = worker.begin(scaled(&config2));
    assert_eq!(step.request, Request::PollCancel);
    assert_eq!(machine.params(), config2);
    let (a, b) = machine.pair().unwrap();
    assert_eq!((a, b), (&three_frames()[0], &three_frames()[1]));
}

#[test]
fn a_worker_without_frames_has_nothing_to_do() {
    let mut worker = ImageProcessor::new();
    let p = params(1, false, false);
    worker.receive(ImageProcessor::submit_config(p).unwrap(), vec![]);
    let (machine, step) = worker.begin(scaled(&p));
    assert_eq!(machine.phase(), Phase::Over);
    assert_eq!(step.request, Request::Stop);
    assert_eq!(step.error, ErrorSignal::Silent);
    assert!(step.progress.is_empty());
}

#[test]
fn update_keeps_what_is_not_given() {
    let mut worker = ImageProcessor::new();
    let p = params(4, true, false);
    worker.update(Some(p), Some(three_frames()));
    worker.update(None, None);
    assert_eq!(worker.img_params(), p);
    let (machine, _) = worker.begin(scaled(&p));
    assert_eq!(machine.phase(), Phase::Polling);
    worker.update(None, Some(vec![]));
    assert_eq!(worker.img_params(), p);
    let (machine, _) = worker.begin(scaled(&p));
    assert_eq!(machine.phase(), Phase::Over);
}

#[test]
fn config_without_algorithm_is_turned_away() {
    let mut p = params(1, false, false);
    p.optflow_alg = FlowAlg::Invalid;
    assert!(matches!(ImageProcessor::submit_config(p), Err(Fault::UnknownAlgorithm)));
    assert!(matches!(
        ImageProcessor::submit_config(params(1, false, false)),
        Ok(ImageProcessorMessage::UpdatedImgParams(_))
    ));
}

#[test]
fn messages_are_named_by_their_kind() {
    assert_eq!(ImageProcessor::submit_frames(vec![]).name(), "UpdatedInputImage");
    assert_eq!(
        ImageProcessorMessage::UpdatedImgParams(params(0, false, false)).name(),
        "UpdatedImgParams"
    );
}

#[test]
fn drawing_the_motion_gives_one_picture_per_pair() {
    let p = params(5, false, true);
    let out = drive(three_frames(), p, scaled(&p), 1.0, 1.0, None);
    let frames = out.result.unwrap();
    assert_eq!(frames.len(), 3);
    for frame in &frames {
        assert_eq!((frame.width(), frame.height()), (4, 4));
        assert!(frame.pixels().iter().all(|p| *p == Rgba { r: 1, g: 2, b: 3, a: 255 }));
    }
    assert_eq!(out.colourings, 3);
    assert_eq!(out.displacements, 0);
    assert_eq!(
        out.progress,
        vec![
            Progress::Started,
            Progress::Advanced { done: 1, total: 3 },
            Progress::Advanced { done: 2, total: 3 },
            Progress::Advanced { done: 3, total: 3 },
            Progress::Finished,
        ]
    );
}

#[test]
fn drawing_motion_that_is_not_finite_gives_transparent_pixels() {
    let p = params(0, false, true);
    let out = drive(vec![shaded(2, 2, 0)], p, scaled(&p), f32::NAN, 0.0, None);
    let frames = out.result.unwrap();
    assert_eq!(frames.len(), 1);
    assert!(frames[0].pixels().iter().all(|p| p.a == 0));
}

#[test]
fn frames_of_different_size_are_a_fault() {
    let p = params(1, false, false);
    let (machine, _) =
        Pipeline::start(vec![shaded(2, 2, 0), shaded(3, 2, 0)], p, scaled(&p));
    let (machine, step) = machine.cancel_polled(false);
    assert_eq!(machine.phase(), Phase::Over);
    assert_eq!(
        step,
        Step {
            progress: vec![],
            error: ErrorSignal::Raise(Fault::SizeMismatch {
                first_width: 2,
                first_height: 2,
                second_width: 3,
                second_height: 2,
            }),
            result: None,
            request: Request::Stop,
        }
    );
}

#[test]
fn a_later_pair_of_different_size_discards_what_was_emitted() {
    let p = params(0, false, false);
    let out = drive(vec![shaded(2, 2, 0), shaded(2, 2, 1), shaded(2, 3, 2)], p, scaled(&p), 0.0, 0.0, None);
    assert_eq!(out.result, None);
    assert_eq!(
        out.errors,
        vec![
            ErrorSignal::Clear,
            ErrorSignal::Raise(Fault::SizeMismatch {
                first_width: 2,
                first_height: 2,
                second_width: 2,
                second_height: 3,
            }),
        ]
    );
    assert_eq!(out.flow_calls, 1);
}

#[test]
fn running_without_an_algorithm_is_a_fault() {
    let mut p = params(1, false, false);
    p.optflow_alg = FlowAlg::Invalid;
    let (machine, _) = Pipeline::start(three_frames(), p, scaled(&p));
    let (machine, step) = machine.cancel_polled(false);
    assert_eq!(machine.phase(), Phase::Over);
    assert_eq!(step.error, ErrorSignal::Raise(Fault::UnknownAlgorithm));
    assert_eq!(step.request, Request::Stop);
}

#[test]
fn a_failing_flow_capability_is_a_fault() {
    let p = params(1, false, false);
    let (machine, _) = Pipeline::start(three_frames(), p, scaled(&p));
    let (machine, _) = machine.cancel_polled(false);
    let (machine, step) = machine.flow_failed("out of memory".to_string());
    assert_eq!(machine.phase(), Phase::Over);
    assert_eq!(
        step,
        Step {
            progress: vec![],
            error: ErrorSignal::Raise(Fault::Flow("out of memory".to_string())),
            result: None,
            request: Request::Stop,
        }
    );
}

#[test]
fn a_schedule_of_the_wrong_length_is_a_fault() {
    let p = params(2, false, false);
    for multipliers in [vec![], vec![0, 0], vec![0, 0, 0, 0]] {
        let (machine, step) = Pipeline::start(three_frames(), p, multipliers);
        assert_eq!(machine.phase(), Phase::Over);
        assert_eq!(step.error, ErrorSignal::Raise(Fault::Schedule));
        assert!(step.progress.is_empty());
    }
    let mut q = params(usize::MAX, false, false);
    q.flow_multiplier = 0;
    let (_, step) = Pipeline::start(three_frames(), q, vec![0]);
    assert_eq!(step.error, ErrorSignal::Raise(Fault::Schedule));
}

#[test]
fn drawing_the_motion_needs_no_schedule() {
    let p = params(3, false, true);
    for multipliers in [vec![], vec![0], vec![0, 0], vec![7; 9]] {
        let out = drive(three_frames(), p, multipliers, 1.0, 1.0, None);
        assert_eq!(out.result.unwrap().len(), 3);
        assert_eq!(out.errors, vec![ErrorSignal::Clear]);
        assert_eq!(out.polls, 3);
    }
}

#[test]
fn a_motion_field_of_the_wrong_size_is_a_fault() {
    let p = params(1, false, false);
    let (machine, _) = Pipeline::start(three_frames(), p, scaled(&p));
    let (machine, _) = machine.cancel_polled(false);
    let (machine, step) = machine.flow_computed(constant_field(4, 3, 0.0, 0.0));
    assert_eq!(machine.phase(), Phase::Over);
    assert_eq!(step.error, ErrorSignal::Raise(Fault::FieldSize));
}

#[test]
fn samples_of_the_wrong_count_are_a_fault() {
    let p = params(1, false, false);
    let (machine, _) = Pipeline::start(three_frames(), p, scaled(&p));
    let (machine, _) = machine.cancel_polled(false);
    let (machine, step) = machine.flow_computed(constant_field(4, 4, 1.0, 0.0));
    assert_eq!(step.request, Request::PollCancel);
    assert_eq!(step.progress, vec![Progress::Advanced { done: 1, total: 6 }]);
    let (machine, step) = machine.cancel_polled(false);
    assert_eq!(step.request, Request::Displace { multiplier: 0.5f32.to_bits() });
    assert_eq!(machine.phase(), Phase::Displacing);
    let (machine, step) = machine.displaced(vec![Sample { x: 0, y: 0 }; 15]);
    assert_eq!(machine.phase(), Phase::Over);
    assert_eq!(step.error, ErrorSignal::Raise(Fault::Samples));
    assert_eq!(step.result, None);
}

#[test]
fn colours_of_the_wrong_count_are_a_fault() {
    let p = params(1, false, true);
    let (machine, _) = Pipeline::start(three_frames(), p, scaled(&p));
    let (machine, _) = machine.cancel_polled(false);
    let (machine, step) = machine.flow_computed(constant_field(4, 4, 1.0, 0.0));
    assert_eq!(step.request, Request::Colourise);
    assert_eq!(machine.phase(), Phase::Colouring);
    let (machine, step) = machine.coloured(vec![Rgb { r: 0, g: 0, b: 0 }; 17]);
    assert_eq!(machine.phase(), Phase::Over);
    assert_eq!(step.error, ErrorSignal::Raise(Fault::Colours));
}

#[test]
fn an_answer_that_was_not_asked_for_is_a_fault() {
    let p = params(1, false, false);
    let (machine, _) = Pipeline::start(three_frames(), p, scaled(&p));
    let (machine, step) = machine.flow_computed(constant_field(4, 4, 0.0, 0.0));
    assert_eq!(machine.phase(), Phase::Over);
    assert_eq!(step.error, ErrorSignal::Raise(Fault::OutOfTurn));

    let (machine, _) = Pipeline::start(three_frames(), p, scaled(&p));
    let (machine, _) = machine.cancel_polled(false);
    let (_, step) = machine.cancel_polled(false);
    assert_eq!(step.error, ErrorSignal::Raise(Fault::OutOfTurn));

    let (machine, _) = Pipeline::start(three_frames(), p, scaled(&p));
    let (_, step) = machine.displaced(vec![]);
    assert_eq!(step.error, ErrorSignal::Raise(Fault::OutOfTurn));

    let (machine, _) = Pipeline::start(three_frames(), p, scaled(&p));
    let (_, step) = machine.coloured(vec![]);
    assert_eq!(step.error, ErrorSignal::Raise(Fault::OutOfTurn));

    let (machine, _) = Pipeline::start(three_frames(), p, scaled(&p));
    let (_, step) = machine.flow_failed("early".to_string());
    assert_eq!(step.error, ErrorSignal::Raise(Fault::OutOfTurn));
}

#[test]
fn the_same_inputs_give_the_same_output() {
    let p = params(2, true, false);
    let first = drive(three_frames(), p, scaled(&p), 1.5, -0.5, None);
    let second = drive(three_frames(), p, scaled(&p), 1.5, -0.5, None);
    assert_eq!(first.result, second.result);
    assert_eq!(first.progress, second.progress);
    assert_eq!(first.result.unwrap().len(), 9);
}

#[test]
fn multipliers_near_zero_are_copied_and_the_others_are_asked_for() {
    let p = params(3, false, false);
    let tiny = (f32::EPSILON * 0.5).to_bits();
    let (machine, _) = Pipeline::start(
        vec![shaded(2, 2, 7)],
        p,
        vec![0, tiny, 0.5f32.to_bits(), 0x8000_0000],
    );
    let (machine, _) = machine.cancel_polled(false);
    // the first multiplier is zero: a copy, and a poll before the next frame
    let (machine, step) = machine.flow_computed(constant_field(2, 2, 2.0, 0.0));
    assert_eq!(step.request, Request::PollCancel);
    assert_eq!(step.progress, vec![Progress::Advanced { done: 1, total: 4 }]);
    // the second is tiny: a copy again
    let (machine, step) = machine.cancel_polled(false);
    assert_eq!(step.request, Request::PollCancel);
    assert_eq!(step.progress, vec![Progress::Advanced { done: 2, total: 4 }]);
    // the third moves: samples are asked for
    let (machine, step) = machine.cancel_polled(false);
    assert_eq!(step.request, Request::Displace { multiplier: 0.5f32.to_bits() });
    assert!(step.progress.is_empty());
    let samples = displace(machine.flow().unwrap(), 0.5f32.to_bits());
    let (machine, step) = machine.displaced(samples);
    assert_eq!(step.request, Request::PollCancel);
    assert_eq!(step.progress, vec![Progress::Advanced { done: 3, total: 4 }]);
    // the fourth is minus zero: a copy, and the run is complete
    let (machine, step) = machine.cancel_polled(false);
    assert_eq!(machine.phase(), Phase::Over);
    assert_eq!(
        step.progress,
        vec![Progress::Advanced { done: 4, total: 4 }, Progress::Finished]
    );
    let frames = step.result.unwrap();
    assert_eq!(frames.len(), 4);
    assert_eq!(frames[0], shaded(2, 2, 7));
    assert_eq!(frames[1], shaded(2, 2, 7));
    assert_eq!(frames[3], shaded(2, 2, 7));
    assert_eq!(frames[2].get_pixel(1, 0), shaded(2, 2, 7).get_pixel(0, 0));
}

#[test]
fn a_breakdown_of_the_host_is_a_fault() {
    let p = params(1, false, false);
    let (machine, _) = Pipeline::start(three_frames(), p, scaled(&p));
    let (machine, _) = machine.cancel_polled(false);
    let (machine, step) = machine.handle(Event::Panicked("index out of bounds".to_string()));
    assert_eq!(machine.phase(), Phase::Over);
    assert_eq!(
        step,
        Step {
            progress: vec![],
            error: ErrorSignal::Raise(Fault::Panicked("index out of bounds".to_string())),
            result: None,
            request: Request::Stop,
        }
    );
    let (machine, step) = machine.panicked("again".to_string());
    assert_eq!(machine.phase(), Phase::Over);
    assert_eq!(step.error, ErrorSignal::Silent);
    assert_eq!(step.request, Request::Stop);
}

#[test]
fn faults_are_worded_for_the_consumer() {
    assert_eq!(
        Fault::SizeMismatch {
            first_width: 4,
            first_height: 4,
            second_width: 5,
            second_height: 1024,
        }
        .message(),
        "Frames don't have the same size: Size_ { width: 4, height: 4 } != Size_ { width: 5, height: 1024 }"
    );
    assert_eq!(
        Fault::SizeMismatch {
            first_width: 0,
            first_height: u32::MAX,
            second_width: 10,
            second_height: 99,
        }
        .message(),
        format!(
            "Frames don't have the same size: Size_ {{ width: {}, height: {} }} != Size_ {{ width: {}, height: {} }}",
            0,
            u32::MAX,
            10,
            99
        )
    );
    assert_eq!(Fault::UnknownAlgorithm.message(), "Unknown optical flow algorithm Invalid");
    assert_eq!(Fault::Flow("no memory".to_string()).message(), "no memory");
    assert_eq!(Fault::Panicked("boom".to_string()).message(), "boom");
    assert_eq!(
        Fault::Schedule.message(),
        "The multiplier schedule does not fit the parameters"
    );
    assert_eq!(Fault::TooLong.message(), "The run would emit more frames than can be counted");
    assert_eq!(
        Fault::FieldSize.message(),
        "The motion field does not have the size of the frames"
    );
    assert_eq!(Fault::Colours.message(), "There is not one colour for each motion vector");
    assert_eq!(Fault::Samples.message(), "There is not one sample for each pixel");
    assert_eq!(Fault::OutOfTurn.message(), "The host answered what was not asked");
}

#[test]
fn the_worker_is_busy_from_a_batch_to_the_end_of_the_run() {
    let mut worker = ImageProcessor::new();
    assert!(!worker.is_busy());
    let p = params(0, false, false);
    worker.receive(ImageProcessor::submit_frames(three_frames()), vec![]);
    assert!(worker.is_busy());
    worker.update(Some(p), None);
    assert!(worker.is_busy());
    let (_, step) = worker.begin(scaled(&p));
    assert_eq!(step.request, Request::PollCancel);
    worker.finished();
    assert!(!worker.is_busy());
    assert_eq!(worker.img_params(), p);
}
