//! Verified core of the AnimeUpscale pipeline: segmentation of a video into
//! chunks, frame-rate arithmetic, tool argument construction, progress
//! accounting, the job registry and the per-job processing plan.

pub mod args;
pub mod commands;
pub mod concat;
pub mod config;
pub mod error;
pub mod estimate;
pub mod events;
pub mod frames;
pub mod ratio;
pub mod segment;
pub mod state;
pub mod text;
pub mod tools;
pub mod interpolate;
pub mod paths;
pub mod plan;
pub mod probe;
pub mod progress;
