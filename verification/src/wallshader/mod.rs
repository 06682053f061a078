//! The WallShader daemon's command-line handles, directories and bindings.
pub mod handles;
pub mod paths;
pub mod bindings;
pub mod bootstrap;
pub mod defaults;
pub mod antialias;
