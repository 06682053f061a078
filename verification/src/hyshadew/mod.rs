//! The hyshadew daemon's directory layout and command-line helpers.
pub mod paths;
pub mod bindings;
pub mod bootstrap;
pub mod cli;
pub mod state;
pub mod defaults;
pub mod multi;
