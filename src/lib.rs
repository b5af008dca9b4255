//! Band selection for a supervised HF data-link decoder.
//!
//! A policy picks which frequency band the decoder listens to next; the
//! supervisor drives one decoder episode after another around that policy.
pub mod args;
pub mod catalog;
pub mod chooser;
pub mod endpoint;
pub mod frame;
pub mod params;
pub mod random;
pub mod rotate;
pub mod single;
pub mod supervisor;
pub mod target;
pub mod text;
