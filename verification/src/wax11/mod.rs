//! The wax11 daemon's directory layout and command-line helpers.
pub mod paths;
pub mod bootstrap;
pub mod run;
