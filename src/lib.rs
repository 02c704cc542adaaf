//! The immediate-mode drawing core of a creative-coding graphics library: the per-canvas
//! command log and paint/transform state machine, the batching planner that turns a frame's
//! commands into a minimal ordered list of drawables, material keys, and the pixel codec used
//! to move texel data between CPU buffers and GPU textures.
//!
//! Real numbers travel through this crate as IEEE-754 bit patterns (`Scalar`); every
//! computation on them (matrix products, tessellation, quantisation) happens at the edge,
//! where the plans produced here are carried out.

pub mod canvas;
pub mod codec;
pub mod command;
pub mod config;
pub mod error;
pub mod geometry;
pub mod layers;
pub mod material;
pub mod pbr;
pub mod render;
pub mod scalar;
pub mod transform;
