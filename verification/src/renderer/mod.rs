//! Renderer data model and the pure parts of shader preparation.
pub mod compile;
pub mod types;
pub mod runtime;
pub mod options;
pub mod wallpaper;
pub mod gpu;
pub mod keyboard;
pub mod cadence;
pub mod surface_frames;
pub mod window;
pub mod cubemap;
