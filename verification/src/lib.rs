//! Frame interpolation driven by dense optical flow.
//!
//! The crate holds the decisions of the interpolation engine: how frames are
//! paired, which fractions of the motion are synthesised, how pixels are
//! sampled, how pending updates are coalesced and what is reported to the
//! consumer. Everything is stated over integers: a single-precision number is
//! carried as its IEEE-754 bit pattern, and the host performs the
//! floating-point arithmetic and the flow estimation that the engine asks for.
//!
//! * [`frame`] and [`motion`] hold the data: frames, motion fields, and what
//!   a warp and a picture of a motion field are.
//! * [`datatypes`] holds the parameters and classifies bit patterns.
//! * [`image_processor`] is the worker: it coalesces updates, keeps the
//!   current frames and parameters and begins runs.
//! * [`pipeline`] is one run as a state machine, [`pipeline_model`] its
//!   mathematical model and [`pipeline_lemmas`] what is proved of it.
//! * [`image_holder`], [`image_saver`], [`spritesheet_generator`] and
//!   [`global_holder`] hold what loading, saving and packing frames decide.
pub mod datatypes;
pub mod frame;
pub mod global_holder;
pub mod image_holder;
pub mod image_processor;
pub mod image_saver;
pub mod motion;
pub mod pipeline;
pub mod pipeline_lemmas;
pub mod pipeline_model;
pub mod spritesheet_generator;
pub mod text;
pub mod utility;
