//! The lambdash daemon's command line and bundled-defaults bookkeeping.
pub mod cli;
pub mod defaults;
