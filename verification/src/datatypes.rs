//! Parameters of the interpolation and the flow vector they are applied to.
//!
//! Single-precision numbers are held as IEEE-754 bit patterns (`u32`): the
//! engine passes them on unchanged and only classifies them.
use vstd::prelude::*;

verus! {

/// Mask of the bits of a single-precision pattern that are not the sign.
pub const MAGNITUDE_MASK: u32 = 0x7fff_ffff;

/// Pattern of positive infinity; every larger magnitude is a NaN.
pub const INFINITY_BITS: u32 = 0x7f80_0000;

/// Pattern of the difference between 1.0 and the next larger single-precision number.
pub const EPSILON_BITS: u32 = 0x3400_0000;

/// Whether a single-precision pattern stands for a finite number (neither infinite nor NaN).
pub open spec fn finite_bits(bits: u32) -> bool {
    bits & MAGNITUDE_MASK < INFINITY_BITS
}

/// Whether a single-precision pattern stands for a number whose distance from
/// zero is at most the single-precision epsilon.
pub open spec fn near_zero_bits(bits: u32) -> bool {
    bits & MAGNITUDE_MASK <= EPSILON_BITS
}

/// Tells whether the pattern stands for a finite number.
pub fn is_finite(bits: u32) -> (r: bool)
    ensures
        r == finite_bits(bits),
{
    (bits & MAGNITUDE_MASK) < INFINITY_BITS
}

/// Tells whether a multiplier is so close to zero that applying it moves nothing.
pub fn is_near_zero(bits: u32) -> (r: bool)
    ensures
        r == near_zero_bits(bits),
{
    (bits & MAGNITUDE_MASK) <= EPSILON_BITS
}

/// A pattern is finite exactly when its eight exponent bits are not all set.
pub proof fn lemma_finite_by_exponent(bits: u32)
    ensures
        finite_bits(bits) <==> (bits >> 23) & 0xff != 0xff,
{
    assert((bits & 0x7fff_ffff < 0x7f80_0000) <==> (bits >> 23) & 0xff != 0xff) by (bit_vector);
}

/// Both zeros are near zero, and nothing that is near zero is infinite or a NaN.
pub proof fn lemma_near_zero(bits: u32)
    ensures
        bits == 0 || bits == 0x8000_0000 ==> near_zero_bits(bits),
        near_zero_bits(bits) ==> finite_bits(bits),
        near_zero_bits(bits) <==> near_zero_bits(bits ^ 0x8000_0000),
{
    assert(0u32 & 0x7fff_ffff == 0) by (bit_vector);
    assert(0x8000_0000u32 & 0x7fff_ffff == 0) by (bit_vector);
    assert((bits ^ 0x8000_0000) & 0x7fff_ffff == bits & 0x7fff_ffff) by (bit_vector);
}

/// The dense optical flow algorithm and its parameters.
#[derive(Clone, Copy, Debug, PartialEq, Eq, Structural)]
pub enum FlowAlg {
    SimpleFlow { layers: usize, averaging_block_size: usize, max_flow: usize },
    DenseRLOF {
        /// Bit pattern of the single-precision threshold.
        forward_backward_threshold: u32,
        grid_step_x: i32,
        grid_step_y: i32,
        use_post_proc: bool,
        use_variational_refinement: bool,
    },
    /// No algorithm was chosen yet. It must never be run.
    Invalid,
}

impl Default for FlowAlg {
    fn default() -> (r: FlowAlg)
        ensures
            r == FlowAlg::Invalid,
    {
        FlowAlg::Invalid
    }
}

/// Nearest neighbours taken by the edge-preserving interpolation of the dense RLOF call.
pub const EPIC_K: i32 = 128;

/// Bit pattern of 0.05, the edge-aware distance parameter of the dense RLOF call.
pub const EPIC_SIGMA_BITS: u32 = 0x3d4c_cccd;

/// Bit pattern of 100.0, the regularisation parameter of the dense RLOF call.
pub const EPIC_LAMBDA_BITS: u32 = 0x42c8_0000;

/// Superpixel size of the dense RLOF call.
pub const RIC_SP_SIZE: i32 = 15;

/// Superpixel algorithm of the dense RLOF call.
pub const RIC_SLIC_TYPE: i32 = 100;

/// Bit pattern of 500.0, the smoothing strength of the dense RLOF post-processing.
pub const FGS_LAMBDA_BITS: u32 = 0x43fa_0000;

/// Bit pattern of 1.5, the colour range of the dense RLOF post-processing.
pub const FGS_SIGMA_BITS: u32 = 0x3fc0_0000;

/// The arguments of one call of the flow capability, next to the two frames.
/// Sparse matches of the dense RLOF call are interpolated edge-preservingly (EPIC).
#[derive(Clone, Copy, Debug, PartialEq, Eq, Structural)]
pub enum FlowCall {
    SimpleFlow { layers: i32, averaging_block_size: i32, max_flow: i32 },
    DenseRLOF {
        forward_backward_threshold: u32,
        grid_step_x: i32,
        grid_step_y: i32,
        epic_k: i32,
        epic_sigma: u32,
        epic_lambda: u32,
        ric_sp_size: i32,
        ric_slic_type: i32,
        use_post_proc: bool,
        fgs_lambda: u32,
        fgs_sigma: u32,
        use_variational_refinement: bool,
    },
}

impl FlowAlg {
    /// The call that runs this algorithm. Sizes are cut to the low 32 bits
    /// that the capability takes. `Invalid` has no call; for it the result is
    /// not specified.
    pub open spec fn call(self) -> FlowCall {
        match self {
            FlowAlg::SimpleFlow { layers, averaging_block_size, max_flow } => FlowCall::SimpleFlow {
                layers: layers as i32,
                averaging_block_size: averaging_block_size as i32,
                max_flow: max_flow as i32,
            },
            FlowAlg::DenseRLOF {
                forward_backward_threshold,
                grid_step_x,
                grid_step_y,
                use_post_proc,
                use_variational_refinement,
            } => FlowCall::DenseRLOF {
                forward_backward_threshold,
                grid_step_x,
                grid_step_y,
                epic_k: EPIC_K,
                epic_sigma: EPIC_SIGMA_BITS,
                epic_lambda: EPIC_LAMBDA_BITS,
                ric_sp_size: RIC_SP_SIZE,
                ric_slic_type: RIC_SLIC_TYPE,
                use_post_proc,
                fgs_lambda: FGS_LAMBDA_BITS,
                fgs_sigma: FGS_SIGMA_BITS,
                use_variational_refinement,
            },
            FlowAlg::Invalid => arbitrary(),
        }
    }
}

/// Everything that configures one interpolation run. It is replaced as a whole.
#[derive(Clone, Copy, Debug, PartialEq, Eq, Structural)]
pub struct ImgParams {
    /// How many frames to synthesise between two input frames.
    pub inbetweens: usize,
    /// Whether the last frame leads back to the first.
    pub loop_seamlessly: bool,
    /// Bit pattern of the single-precision factor applied to every scheduled fraction.
    pub flow_multiplier: u32,
    pub optflow_alg: FlowAlg,
    /// Whether to draw the motion field instead of warping frames along it.
    pub show_motion_vectors: bool,
}

impl Default for ImgParams {
    fn default() -> (r: ImgParams)
        ensures
            r == (ImgParams {
                inbetweens: 0,
                loop_seamlessly: false,
                flow_multiplier: 0,
                optflow_alg: FlowAlg::Invalid,
                show_motion_vectors: false,
            }),
    {
        ImgParams {
            inbetweens: 0,
            loop_seamlessly: false,
            flow_multiplier: 0,
            optflow_alg: FlowAlg::Invalid,
            show_motion_vectors: false,
        }
    }
}

/// One entry of the multiplier schedule, an exact fraction of the motion between two frames.
#[derive(Clone, Copy, Debug, PartialEq, Eq, Structural)]
pub struct Fraction {
    pub numerator: usize,
    pub denominator: usize,
}

impl ImgParams {
    /// The number of in-between frames that a run works with: drawing the
    /// motion field forces it to one.
    pub open spec fn spec_effective_inbetweens(self) -> nat {
        if self.show_motion_vectors {
            1
        } else {
            self.inbetweens as nat
        }
    }

    /// The number of entries of the multiplier schedule.
    pub open spec fn schedule_len(self) -> nat {
        self.spec_effective_inbetweens() + 1
    }

    /// The number of frames that a run emits for each pair: one picture of the
    /// motion field, or one frame per entry of the schedule.
    pub open spec fn frames_per_pair(self) -> nat {
        if self.show_motion_vectors {
            1
        } else {
            self.schedule_len()
        }
    }

    /// The schedule: entry `i` is the fraction `i / schedule_len`.
    pub open spec fn schedule(self) -> Seq<Fraction> {
        Seq::new(
            self.schedule_len(),
            |i: int| Fraction { numerator: i as usize, denominator: self.schedule_len() as usize },
        )
    }

    /// The number of in-between frames that a run works with.
    pub fn effective_inbetweens(&self) -> (r: usize)
        ensures
            r == self.spec_effective_inbetweens(),
    {
        if self.show_motion_vectors {
            1
        } else {
            self.inbetweens
        }
    }

    /// Computes the multiplier schedule, evenly spaced fractions from zero up
    /// to but not including one. There is none when its length does not fit
    /// the machine's word.
    pub fn flow_multipliers(&self) -> (r: Option<Vec<Fraction>>)
        ensures
            r is Some <==> self.schedule_len() <= usize::MAX,
            r is Some ==> r->0@ == self.schedule(),
    {
        let inbetweens: usize = self.effective_inbetweens();
        if inbetweens == usize::MAX {
            return None;
        }
        let len: usize = inbetweens + 1;
        let mut schedule: Vec<Fraction> = Vec::new();
        let mut i: usize = 0;
        while i < len
            invariant
                i <= len,
                len == self.schedule_len(),
                schedule@.len() == i,
                forall|k: int|
                    0 <= k < i ==> schedule@[k] == (Fraction {
                        numerator: k as usize,
                        denominator: len,
                    }),
            decreases len - i,
        {
            schedule.push(Fraction { numerator: i, denominator: len });
            i += 1;
        }
        Some(schedule)
    }
}

/// A schedule starts at zero, stays below one and rises in equal steps.
pub proof fn lemma_schedule_shape(params: ImgParams, i: int)
    requires
        0 <= i < params.schedule_len() <= usize::MAX,
    ensures
        params.schedule().len() == params.schedule_len(),
        params.schedule()[0].numerator == 0,
        params.schedule()[i].numerator == i,
        params.schedule()[i].denominator == params.schedule_len(),
        params.schedule()[i].numerator < params.schedule()[i].denominator,
        params.show_motion_vectors ==> params.schedule_len() == 2,
        !params.show_motion_vectors ==> params.schedule_len() == params.inbetweens + 1,
{
}

/// How sprites are laid out on a sheet.
#[derive(Clone, Copy, Debug, PartialEq, Eq, Structural)]
pub struct SpritesheetGenerationParams {
    pub frames_per_row: usize,
}

impl Default for SpritesheetGenerationParams {
    fn default() -> (r: SpritesheetGenerationParams)
        ensures
            r.frames_per_row == 0,
    {
        SpritesheetGenerationParams { frames_per_row: 0 }
    }
}

/// A motion vector: the bit patterns of its two single-precision components.
#[derive(Clone, Copy, Debug, PartialEq, Eq, Structural)]
pub struct BVector2 {
    pub x: u32,
    pub y: u32,
}

impl BVector2 {
    /// Both components are finite numbers.
    pub open spec fn spec_is_finite(self) -> bool {
        finite_bits(self.x) && finite_bits(self.y)
    }

    /// Tells whether both components are finite numbers.
    pub fn is_finite(&self) -> (r: bool)
        ensures
            r == self.spec_is_finite(),
    {
        is_finite(self.x) && is_finite(self.y)
    }
}

} // verus!
