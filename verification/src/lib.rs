//! Core model of a 2D light-transport visualizer's render graph.
//!
//! A painted scene texture is turned into a displayed image through a fixed
//! pipeline of dependent passes: seed, jump-flood distance transform,
//! distance-field extraction, radiance accumulation and final composition.
//! This crate holds the verified bookkeeping of that pipeline: the texture
//! registry, the per-frame pass schedule, paint-stroke clipping against the
//! scene texture's CPU shadow copy, and the marshaling of tunable options
//! into GPU constant blocks. The host application executes the schedule on
//! the GPU.

pub mod constants;
pub mod diagnostics;
pub mod jfa;
pub mod jfa_grid;
pub mod manager;
pub mod noise;
pub mod registry;
pub mod scale;
pub mod scene;
