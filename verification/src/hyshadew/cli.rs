//! The hyshadew command line: its subcommands and option values.
use vstd::prelude::*;
use crate::renderer::options::{
    antialias_value, color_space_value, outcome_is, shader_compiler_value,
};
use crate::renderer::types::{Antialiasing, ColorSpaceMode, ShaderCompiler};

verus! {

/// A subcommand.
#[derive(Debug, Clone, PartialEq, Eq)]
pub enum Command {
    /// Manage bundled defaults (shader packs, playlists, paths).
    Defaults(DefaultsCommand),
}

#[derive(Debug, Clone, PartialEq, Eq)]
pub struct DefaultsCommand {
    pub action: DefaultsAction,
}

#[derive(Debug, Clone, PartialEq, Eq)]
pub enum DefaultsAction {
    /// Copy bundled defaults into user directories.
    Sync(DefaultsSyncArgs),
    /// Show bundled defaults and whether they exist locally.
    List,
    /// Print resolved directories for config, data, cache, and share roots.
    Where,
}

#[derive(Debug, Clone, Copy, PartialEq, Eq)]
pub struct DefaultsSyncArgs {
    /// Preview which defaults would be copied without writing to disk.
    pub dry_run: bool,
}

impl Default for DefaultsSyncArgs {
    fn default() -> (r: Self)
        ensures
            !r.dry_run,
    {
        DefaultsSyncArgs { dry_run: false }
    }
}

/// `--antialias`: see `antialias_value`.
pub fn parse_antialias(value: &str) -> (r: Result<Antialiasing, String>)
    ensures
        outcome_is(r, antialias_value(value@)),
{
    crate::renderer::options::parse_antialias(value)
}

/// `--shader-compiler`: see `shader_compiler_value`.
pub fn parse_shader_compiler(value: &str) -> (r: Result<ShaderCompiler, String>)
    ensures
        outcome_is(r, shader_compiler_value(value@)),
{
    crate::renderer::options::parse_shader_compiler(value)
}

/// `--color-space`: see `color_space_value`.
pub fn parse_color_space(value: &str) -> (r: Result<ColorSpaceMode, String>)
    ensures
        outcome_is(r, color_space_value(value@)),
{
    crate::renderer::options::parse_color_space(value)
}

} // verus!
