//! Shader handles, pack manifests, local packs and path resolution.
pub mod handle;
pub mod manifest;
pub mod pack;
pub mod remote;
pub mod path;
pub mod repository;

use vstd::prelude::*;
use crate::text::{chars_of, strip_prefix, strip_prefix_str};

pub use handle::{normalize_shadertoy_reference, parse_shader_handle};
pub use path::PathResolver;

verus! {

/// A shader to load: a Shadertoy id, or a local pack directory.
#[derive(Debug, Clone, PartialEq, Eq)]
pub enum ShaderHandle {
    ShadertoyId(String),
    LocalPack(String),
}

impl ShaderHandle {
    /// `shadertoy://<id>` names a Shadertoy shader; any other input is a
    /// local pack path taken as written.
    pub fn from_input(input: &str) -> (r: Self)
        ensures
            match strip_prefix(input@, "shadertoy://"@) {
                Some(id) => r matches ShaderHandle::ShadertoyId(s) && s@ == id,
                None => r matches ShaderHandle::LocalPack(p) && p@ == input@,
            },
    {
        let v = chars_of(input);
        match strip_prefix_str(v.as_slice(), "shadertoy://") {
            Some(id) => ShaderHandle::ShadertoyId(crate::text::string_of(id.as_slice())),
            None => ShaderHandle::LocalPack(input.to_owned()),
        }
    }

    pub fn is_local(&self) -> (b: bool)
        ensures
            b == (self is LocalPack),
    {
        match self {
            ShaderHandle::LocalPack(_) => true,
            _ => false,
        }
    }

    /// The pack directory of a local handle.
    pub fn expects_layout(&self) -> (r: Option<&str>)
        ensures
            match self {
                ShaderHandle::LocalPack(p) => r matches Some(s) && s@ == p@,
                ShaderHandle::ShadertoyId(_) => r is None,
            },
    {
        match self {
            ShaderHandle::LocalPack(path) => Some(path.as_str()),
            _ => None,
        }
    }
}

} // verus!
