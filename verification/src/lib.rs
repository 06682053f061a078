//! Verified core of the WallShader shader-wallpaper tooling.
pub mod text;
pub mod fspath;
pub mod setup;
pub mod shadertoy;
pub mod wallshader;
pub mod renderer;
pub mod wax11;
pub mod hyshadew;
pub mod lambdash;
pub mod durations;
pub mod multiconfig;
pub mod scheduler;
