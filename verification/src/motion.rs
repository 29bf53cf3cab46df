//! Dense motion fields and what is derived from them per pixel.
use vstd::prelude::*;
use crate::datatypes::BVector2;
use crate::frame::{FrameView, Rgba};

verus! {

/// The mathematical value of a motion field: its dimensions and one vector
/// per pixel in row-major order.
pub struct MotionFieldView {
    pub width: nat,
    pub height: nat,
    pub vectors: Seq<BVector2>,
}

impl MotionFieldView {
    /// There is exactly one vector per coordinate.
    pub open spec fn wf(self) -> bool {
        self.vectors.len() == self.width * self.height
    }

    /// The vector at column `x` of row `y`.
    pub open spec fn at(self, x: int, y: int) -> BVector2
        recommends
            0 <= x < self.width,
            0 <= y < self.height,
    {
        self.vectors[y * self.width + x]
    }
}

/// A dense field of motion vectors, one per pixel of the frame pair it was
/// estimated from. Components may be infinite or NaN.
#[derive(Debug, PartialEq, Eq)]
pub struct MotionField {
    width: u32,
    height: u32,
    vectors: Vec<BVector2>,
}

impl View for MotionField {
    type V = MotionFieldView;

    closed spec fn view(&self) -> MotionFieldView {
        MotionFieldView {
            width: self.width as nat,
            height: self.height as nat,
            vectors: self.vectors@,
        }
    }
}

impl MotionField {
    #[verifier::type_invariant]
    closed spec fn inv(self) -> bool {
        self.vectors@.len() == self.width * self.height
    }

    /// Builds a field from its dimensions and its vectors in row-major order.
    /// The vector count has to match the dimensions.
    pub fn new(width: u32, height: u32, vectors: Vec<BVector2>) -> (r: Option<MotionField>)
        ensures
            r is Some <==> vectors@.len() == width * height,
            r is Some ==> r->0@ == (MotionFieldView {
                width: width as nat,
                height: height as nat,
                vectors: vectors@,
            }),
    {
        assert(width * height <= u64::MAX) by (nonlinear_arith)
            requires
                width <= u32::MAX,
                height <= u32::MAX,
        ;
        let area: u64 = (width as u64) * (height as u64);
        if vectors.len() as u64 == area {
            Some(MotionField { width, height, vectors })
        } else {
            None
        }
    }

    /// Width in pixels.
    pub fn width(&self) -> (w: u32)
        ensures
            w == self@.width,
            self@.wf(),
    {
        proof {
            use_type_invariant(self);
        }
        self.width
    }

    /// Height in pixels.
    pub fn height(&self) -> (h: u32)
        ensures
            h == self@.height,
            self@.wf(),
    {
        proof {
            use_type_invariant(self);
        }
        self.height
    }

    /// The vectors in row-major order.
    pub fn vectors(&self) -> (v: &Vec<BVector2>)
        ensures
            v@ == self@.vectors,
            self@.wf(),
    {
        proof {
            use_type_invariant(self);
        }
        &self.vectors
    }
}

/// Where a pixel of a warped frame is read from: the rounded position in the
/// source frame, before it is clamped into the frame.
#[derive(Clone, Copy, Debug, PartialEq, Eq, Structural)]
pub struct Sample {
    pub x: i32,
    pub y: i32,
}

/// A colour without transparency.
#[derive(Clone, Copy, Debug, PartialEq, Eq, Structural)]
pub struct Rgb {
    pub r: u8,
    pub g: u8,
    pub b: u8,
}

/// The nearest value to `v` within `0 ..= limit - 1`.
pub open spec fn clamped(v: int, limit: nat) -> int
    recommends
        limit > 0,
{
    if v < 0 {
        0
    } else if v >= limit {
        limit - 1
    } else {
        v
    }
}

/// The pixel of the warped frame at buffer position `i`: the source pixel at
/// the clamped sample position, or the pixel at the same position where the
/// motion vector is not finite.
pub open spec fn warped_pixel(
    frame: FrameView,
    flow: MotionFieldView,
    samples: Seq<Sample>,
    i: int,
) -> Rgba {
    if flow.vectors[i].spec_is_finite() {
        frame.at(clamped(samples[i].x as int, frame.width), clamped(samples[i].y as int, frame.height))
    } else {
        frame.pixels[i]
    }
}

/// The frame that results from sampling `frame` backwards along a motion field.
pub open spec fn warped(frame: FrameView, flow: MotionFieldView, samples: Seq<Sample>) -> FrameView {
    FrameView {
        width: frame.width,
        height: frame.height,
        pixels: Seq::new(frame.pixels.len(), |i: int| warped_pixel(frame, flow, samples, i)),
    }
}

/// The pixel that pictures one motion vector: its colour, fully opaque, or a
/// fully transparent pixel where the vector is not finite.
pub open spec fn pictured_pixel(vector: BVector2, colour: Rgb) -> Rgba {
    if vector.spec_is_finite() {
        Rgba { r: colour.r, g: colour.g, b: colour.b, a: 255 }
    } else {
        Rgba { r: 0, g: 0, b: 0, a: 0 }
    }
}

/// The frame that pictures a motion field with the given colour per vector.
pub open spec fn pictured(flow: MotionFieldView, colours: Seq<Rgb>) -> FrameView {
    FrameView {
        width: flow.width,
        height: flow.height,
        pixels: Seq::new(flow.vectors.len(), |i: int| pictured_pixel(flow.vectors[i], colours[i])),
    }
}

/// Where the motion vector of a pixel is not finite, the warped frame keeps
/// the source pixel at the same coordinates.
pub proof fn lemma_warp_keeps_pixel_without_motion(
    frame: FrameView,
    flow: MotionFieldView,
    samples: Seq<Sample>,
    x: int,
    y: int,
)
    requires
        frame.wf(),
        flow.wf(),
        flow.width == frame.width,
        flow.height == frame.height,
        frame.contains(x, y),
        !flow.at(x, y).spec_is_finite(),
    ensures
        warped(frame, flow, samples).at(x, y) == frame.at(x, y),
{
    crate::frame::lemma_index_in_bounds(frame.width, frame.height, x, y);
}

/// Every pixel of a warped frame is a pixel of the source frame: the one at
/// the sample position clamped into the frame, where the motion is finite.
pub proof fn lemma_warp_samples_source(
    frame: FrameView,
    flow: MotionFieldView,
    samples: Seq<Sample>,
    x: int,
    y: int,
)
    requires
        frame.wf(),
        flow.wf(),
        flow.width == frame.width,
        flow.height == frame.height,
        frame.contains(x, y),
        flow.at(x, y).spec_is_finite(),
    ensures
        warped(frame, flow, samples).wf(),
        ({
            let s = samples[y * frame.width + x];
            let sx = clamped(s.x as int, frame.width);
            let sy = clamped(s.y as int, frame.height);
            &&& frame.contains(sx, sy)
            &&& warped(frame, flow, samples).at(x, y) == frame.at(sx, sy)
        }),
{
    crate::frame::lemma_index_in_bounds(frame.width, frame.height, x, y);
}

/// A warp makes no new colour: every pixel of the warped frame is a pixel of
/// the source frame.
pub proof fn lemma_warp_takes_pixels_from_source(
    frame: FrameView,
    flow: MotionFieldView,
    samples: Seq<Sample>,
    i: int,
)
    requires
        frame.wf(),
        0 <= i < frame.pixels.len(),
    ensures
        exists|j: int|
            0 <= j < frame.pixels.len() && warped(frame, flow, samples).pixels[i]
                == #[trigger] frame.pixels[j],
{
    if flow.vectors[i].spec_is_finite() {
        assert(frame.width > 0 && frame.height > 0) by (nonlinear_arith)
            requires
                frame.width * frame.height > 0,
        ;
        let x = clamped(samples[i].x as int, frame.width);
        let y = clamped(samples[i].y as int, frame.height);
        crate::frame::lemma_index_in_bounds(frame.width, frame.height, x, y);
        assert(warped(frame, flow, samples).pixels[i] == frame.pixels[y * frame.width + x]);
    } else {
        assert(warped(frame, flow, samples).pixels[i] == frame.pixels[i]);
    }
}

/// A warp whose every sample falls on the pixel's own position, wherever the
/// motion is finite, gives back the source frame.
pub proof fn lemma_warp_in_place_is_copy(
    frame: FrameView,
    flow: MotionFieldView,
    samples: Seq<Sample>,
)
    requires
        frame.wf(),
        forall|i: int|
            0 <= i < frame.pixels.len() && (#[trigger] flow.vectors[i]).spec_is_finite() ==> clamped(
                samples[i].y as int,
                frame.height,
            ) * frame.width + clamped(samples[i].x as int, frame.width) == i,
    ensures
        warped(frame, flow, samples) == frame,
{
    assert(warped(frame, flow, samples).pixels =~= frame.pixels);
}

/// Where a motion vector is not finite, the picture of the field is fully
/// transparent; elsewhere it is fully opaque and has the given colour.
pub proof fn lemma_picture_marks_missing_motion(
    flow: MotionFieldView,
    colours: Seq<Rgb>,
    x: int,
    y: int,
)
    requires
        flow.wf(),
        0 <= x < flow.width,
        0 <= y < flow.height,
    ensures
        pictured(flow, colours).wf(),
        !flow.at(x, y).spec_is_finite() ==> pictured(flow, colours).at(x, y).a == 0,
        flow.at(x, y).spec_is_finite() ==> pictured(flow, colours).at(x, y).a == 255,
{
    crate::frame::lemma_index_in_bounds(flow.width, flow.height, x, y);
}

} // verus!
