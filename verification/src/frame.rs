//! Owned RGBA frames.
use vstd::prelude::*;
use crate::motion::{pictured, pictured_pixel, MotionField, Rgb};

verus! {

/// Frames in temporal order.
pub type Frames = Vec<Frame>;

/// One pixel: red, green, blue and alpha, eight bits each.
#[derive(Clone, Copy, Debug, PartialEq, Eq, Structural)]
pub struct Rgba {
    pub r: u8,
    pub g: u8,
    pub b: u8,
    pub a: u8,
}

/// One pixel as the flow capability reads it: blue, green and red.
#[derive(Clone, Copy, Debug, PartialEq, Eq, Structural)]
pub struct Bgr {
    pub b: u8,
    pub g: u8,
    pub r: u8,
}

/// The least alpha at which a pixel counts as visible to the flow capability.
pub const VISIBLE_ALPHA: u8 = 30;

/// What the flow capability reads of a pixel: its colour without the alpha,
/// and black where the pixel is almost transparent.
pub open spec fn bgr_of(pixel: Rgba) -> Bgr {
    if pixel.a < VISIBLE_ALPHA {
        Bgr { b: 0, g: 0, r: 0 }
    } else {
        Bgr { b: pixel.b, g: pixel.g, r: pixel.r }
    }
}

/// The pixel that four consecutive bytes from position `4 * i` on stand for.
pub open spec fn pixel_of(data: Seq<u8>, i: int) -> Rgba {
    Rgba { r: data[4 * i], g: data[4 * i + 1], b: data[4 * i + 2], a: data[4 * i + 3] }
}

/// The byte at position `i` of the raw form of `pixels`: four bytes per
/// pixel, red first and alpha last.
pub open spec fn byte_of(pixels: Seq<Rgba>, i: int) -> u8 {
    let pixel = pixels[i / 4];
    if i % 4 == 0 {
        pixel.r
    } else if i % 4 == 1 {
        pixel.g
    } else if i % 4 == 2 {
        pixel.b
    } else {
        pixel.a
    }
}

/// The raw form of `pixels`.
pub open spec fn raw(pixels: Seq<Rgba>) -> Seq<u8> {
    Seq::new(4 * pixels.len(), |i: int| byte_of(pixels, i))
}

/// The mathematical value of a frame: its dimensions and its pixels in row-major order.
pub struct FrameView {
    pub width: nat,
    pub height: nat,
    pub pixels: Seq<Rgba>,
}

impl FrameView {
    /// There is exactly one pixel per coordinate.
    pub open spec fn wf(self) -> bool {
        self.pixels.len() == self.width * self.height
    }

    /// Whether `(x, y)` lies inside the frame.
    pub open spec fn contains(self, x: int, y: int) -> bool {
        0 <= x < self.width && 0 <= y < self.height
    }

    /// The pixel at column `x` of row `y`.
    pub open spec fn at(self, x: int, y: int) -> Rgba
        recommends
            self.contains(x, y),
    {
        self.pixels[y * self.width + x]
    }
}

/// Position of `(x, y)` in a row-major buffer of the given width stays inside the buffer.
pub proof fn lemma_index_in_bounds(width: nat, height: nat, x: int, y: int)
    requires
        0 <= x < width,
        0 <= y < height,
    ensures
        0 <= y * width + x < width * height,
        y * width + x == x + width * y,
{
    assert(y * width <= (height - 1) * width) by (nonlinear_arith)
        requires
            0 <= y <= height - 1,
            0 <= width,
    ;
    assert((height - 1) * width + width == width * height) by (nonlinear_arith);
    assert(y * width >= 0) by (nonlinear_arith)
        requires
            0 <= y,
            0 <= width,
    ;
    assert(y * width == width * y) by (nonlinear_arith);
}

/// Reading a frame back from its raw bytes gives the pixels it was made of.
pub proof fn lemma_raw_round_trip(pixels: Seq<Rgba>)
    ensures
        raw(pixels).len() == 4 * pixels.len(),
        Seq::new(pixels.len(), |i: int| pixel_of(raw(pixels), i)) == pixels,
{
}

/// An owned RGBA pixel buffer with its width and height.
#[derive(Debug, PartialEq, Eq)]
pub struct Frame {
    width: u32,
    height: u32,
    pixels: Vec<Rgba>,
}

impl View for Frame {
    type V = FrameView;

    closed spec fn view(&self) -> FrameView {
        FrameView { width: self.width as nat, height: self.height as nat, pixels: self.pixels@ }
    }
}

impl Frame {
    #[verifier::type_invariant]
    closed spec fn inv(self) -> bool {
        self.pixels@.len() == self.width * self.height
    }

    /// Builds a frame from its dimensions and its pixels in row-major order.
    /// The pixel count has to match the dimensions.
    pub fn new(width: u32, height: u32, pixels: Vec<Rgba>) -> (r: Option<Frame>)
        ensures
            r is Some <==> pixels@.len() == width * height,
            r is Some ==> r->0@ == (FrameView {
                width: width as nat,
                height: height as nat,
                pixels: pixels@,
            }),
    {
        assert(width * height <= u64::MAX) by (nonlinear_arith)
            requires
                width <= u32::MAX,
                height <= u32::MAX,
        ;
        let area: u64 = (width as u64) * (height as u64);
        if pixels.len() as u64 == area {
            Some(Frame { width, height, pixels })
        } else {
            None
        }
    }

    /// Builds a frame from its dimensions and raw bytes, four per pixel in
    /// the order red, green, blue, alpha, row by row. The buffer has to hold
    /// the whole frame; what it holds beyond that is dropped.
    pub fn from_raw(width: u32, height: u32, data: Vec<u8>) -> (r: Option<Frame>)
        ensures
            r is Some <==> 4 * (width * height) <= data@.len(),
            r is Some ==> r->0@ == (FrameView {
                width: width as nat,
                height: height as nat,
                pixels: Seq::new((width * height) as nat, |i: int| pixel_of(data@, i)),
            }),
    {
        assert(width * height <= 0xffff_fffe_0000_0001) by (nonlinear_arith)
            requires
                width <= u32::MAX,
                height <= u32::MAX,
        ;
        let area: u64 = (width as u64) * (height as u64);
        let given: usize = data.len();
        if area > (given / 4) as u64 {
            return None;
        }
        let count: usize = area as usize;
        let mut pixels: Vec<Rgba> = Vec::new();
        let mut i: usize = 0;
        while i < count
            invariant
                i <= count,
                given == data@.len(),
                4 * count <= given,
                pixels@.len() == i,
                forall|k: int| 0 <= k < i ==> pixels@[k] == pixel_of(data@, k),
            decreases count - i,
        {
            let at: usize = 4 * i;
            pixels.push(Rgba { r: data[at], g: data[at + 1], b: data[at + 2], a: data[at + 3] });
            i += 1;
        }
        assert(pixels@ =~= Seq::new((width * height) as nat, |i: int| pixel_of(data@, i)));
        Some(Frame { width, height, pixels })
    }

    /// The raw bytes of the frame, four per pixel in the order red, green,
    /// blue, alpha, row by row.
    pub fn to_raw(&self) -> (data: Vec<u8>)
        ensures
            data@ == raw(self@.pixels),
    {
        let mut data: Vec<u8> = Vec::new();
        let mut i: usize = 0;
        while i < self.pixels.len()
            invariant
                i <= self.pixels@.len(),
                data@.len() == 4 * i,
                forall|k: int| 0 <= k < 4 * i ==> data@[k] == byte_of(self.pixels@, k),
            decreases self.pixels@.len() - i,
        {
            let pixel: Rgba = self.pixels[i];
            data.push(pixel.r);
            data.push(pixel.g);
            data.push(pixel.b);
            data.push(pixel.a);
            i += 1;
        }
        data
    }

    /// What the flow capability is given of the frame: one colour per pixel,
    /// row by row, without alpha. Pixels that are almost transparent count as
    /// black.
    pub fn to_bgr(&self) -> (samples: Vec<Bgr>)
        ensures
            samples@.len() == self@.pixels.len(),
            forall|i: int| 0 <= i < samples@.len() ==> samples@[i] == bgr_of(self@.pixels[i]),
    {
        let mut samples: Vec<Bgr> = Vec::new();
        let mut i: usize = 0;
        while i < self.pixels.len()
            invariant
                i <= self.pixels@.len(),
                samples@.len() == i,
                forall|k: int| 0 <= k < i ==> samples@[k] == bgr_of(self.pixels@[k]),
            decreases self.pixels@.len() - i,
        {
            let pixel: Rgba = self.pixels[i];
            let sample: Bgr = if pixel.a < VISIBLE_ALPHA {
                Bgr { b: 0, g: 0, r: 0 }
            } else {
                Bgr { b: pixel.b, g: pixel.g, r: pixel.r }
            };
            samples.push(sample);
            i += 1;
        }
        samples
    }

    /// Width in pixels.
    pub fn width(&self) -> (w: u32)
        ensures
            w == self@.width,
            self@.wf(),
    {
        proof {
            use_type_invariant(self);
        }
        self.width
    }

    /// Height in pixels.
    pub fn height(&self) -> (h: u32)
        ensures
            h == self@.height,
            self@.wf(),
    {
        proof {
            use_type_invariant(self);
        }
        self.height
    }

    /// The pixels in row-major order.
    pub fn pixels(&self) -> (p: &Vec<Rgba>)
        ensures
            p@ == self@.pixels,
            self@.wf(),
    {
        proof {
            use_type_invariant(self);
        }
        &self.pixels
    }

    /// The pixel at column `x` of row `y`, if the coordinate lies inside the frame.
    pub fn get_pixel(&self, x: u32, y: u32) -> (p: Option<Rgba>)
        ensures
            p == if self@.contains(x as int, y as int) {
                Some(self@.at(x as int, y as int))
            } else {
                None
            },
    {
        proof {
            use_type_invariant(self);
        }
        let count: usize = self.pixels.len();
        if x < self.width && y < self.height {
            proof {
                lemma_index_in_bounds(self.width as nat, self.height as nat, x as int, y as int);
            }
            let i: usize = (y as usize) * (self.width as usize) + (x as usize);
            Some(self.pixels[i])
        } else {
            None
        }
    }
}

impl Clone for Frame {
    /// A deep copy.
    fn clone(&self) -> (r: Frame)
        ensures
            r@ == self@,
    {
        proof {
            use_type_invariant(self);
        }
        let pixels: Vec<Rgba> = self.pixels.clone();
        Frame { width: self.width, height: self.height, pixels }
    }
}

/// Pictures a motion field: every finite vector becomes an opaque pixel of the
/// colour given for it, every other vector a fully transparent pixel. There is
/// no picture unless there is one colour per vector.
pub fn flow_mat_to_frame(input: &MotionField, colours: &Vec<Rgb>) -> (r: Option<Frame>)
    ensures
        r is Some <==> colours@.len() == input@.vectors.len(),
        r is Some ==> r->0@ == pictured(input@, colours@),
{
    let vectors = input.vectors();
    let count: usize = vectors.len();
    if colours.len() != count {
        return None;
    }
    let mut pixels: Vec<Rgba> = Vec::new();
    let mut i: usize = 0;
    while i < count
        invariant
            i <= count,
            count == vectors@.len(),
            count == colours@.len(),
            pixels@.len() == i,
            forall|k: int| 0 <= k < i ==> pixels@[k] == pictured_pixel(vectors@[k], colours@[k]),
        decreases count - i,
    {
        let colour: Rgb = colours[i];
        let pixel: Rgba = if vectors[i].is_finite() {
            Rgba { r: colour.r, g: colour.g, b: colour.b, a: 255 }
        } else {
            Rgba { r: 0, g: 0, b: 0, a: 0 }
        };
        pixels.push(pixel);
        i += 1;
    }
    assert(pixels@ =~= pictured(input@, colours@).pixels);
    Frame::new(input.width(), input.height(), pixels)
}

} // verus!
