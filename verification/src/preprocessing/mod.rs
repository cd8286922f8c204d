//! Image preprocessing: the steps and the pipeline that sequences them.

pub mod pipeline;
pub mod steps;

pub use pipeline::{Pipeline, Preset, StepTiming};
