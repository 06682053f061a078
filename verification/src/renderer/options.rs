//! The textual forms of the renderer's policies that the daemons accept on
//! their command lines.
use vstd::prelude::*;
use crate::text::{decimal, decimal_chars, eq_str, lit, lower, lower_chars, parse_u32, parse_u32_exec, string_of, trim, trimmed, wrap_msg};
use crate::fspath::{extension, extension_exec};
use crate::renderer::types::{Antialiasing, ColorSpaceMode, ShaderCompiler, SHADERC_ENABLED};
use crate::renderer::runtime::ExportFormat;

verus! {

/// `r` is `Ok` of `v` or `Err` of a string whose characters are `e`.
pub open spec fn outcome_is<T>(r: Result<T, String>, spec: Result<T, Seq<char>>) -> bool {
    match r {
        Ok(v) => spec == Ok::<T, Seq<char>>(v),
        Err(e) => spec == Err::<T, Seq<char>>(e@),
    }
}

/// The anti-aliasing policy a command-line value names: `auto`/`max`/
/// `default`, `off`/`none`/`disable`/`disabled`/`0`, or a sample count
/// (1 means off; 2, 4, 8 and 16 are supported), ignoring surrounding
/// whitespace and ASCII case.
pub open spec fn antialias_value(value: Seq<char>) -> Result<Antialiasing, Seq<char>> {
    let t = trim(value);
    let n = lower(t);
    if t.len() == 0 {
        Err("anti-alias mode must not be empty"@)
    } else if n == "auto"@ || n == "max"@ || n == "default"@ {
        Ok(Antialiasing::Auto)
    } else if n == "off"@ || n == "none"@ || n == "disable"@ || n == "disabled"@ || n == "0"@ {
        Ok(Antialiasing::Off)
    } else {
        match parse_u32(n) {
            None => Err("invalid anti-alias sample count '"@ + t + "'; use auto/off or 2/4/8/16"@),
            Some(k) => if k == 0 || k == 1 {
                Ok(Antialiasing::Off)
            } else if k == 2 || k == 4 || k == 8 || k == 16 {
                Ok(Antialiasing::Samples(k))
            } else {
                Err(
                    "unsupported sample count "@ + decimal(k as nat)
                        + "; supported values are 2, 4, 8, or 16"@,
                )
            },
        }
    }
}

/// The policy an outcome holds, if it is one.
pub open spec fn ok_policy(r: Result<Antialiasing, Seq<char>>) -> Option<Antialiasing> {
    match r {
        Ok(a) => Some(a),
        Err(_) => None,
    }
}

/// An anti-aliasing value is read without regard to surrounding whitespace
/// or ASCII case: two values that agree once trimmed and lower-cased name
/// the same policy (or are both refused), and every policy named is `auto`,
/// off, or 2, 4, 8 or 16 samples.
pub proof fn lemma_antialias_case_and_space(v: Seq<char>, w: Seq<char>)
    requires
        lower(trim(v)) == lower(trim(w)),
    ensures
        ok_policy(antialias_value(v)) == ok_policy(antialias_value(w)),
        antialias_value(v) matches Ok(a) ==> (a == Antialiasing::Auto || a == Antialiasing::Off || (a matches Antialiasing::Samples(k)
            && (k == 2 || k == 4 || k == 8 || k == 16))),
{
    assert(trim(v).len() == lower(trim(v)).len());
    assert(trim(w).len() == lower(trim(w)).len());
}

/// The shader compiler a command-line value names.
pub open spec fn shader_compiler_value(value: Seq<char>) -> Result<ShaderCompiler, Seq<char>> {
    let t = trim(value);
    let n = lower(t);
    if t.len() == 0 {
        Err("shader compiler must not be empty"@)
    } else if n == "shaderc"@ {
        if SHADERC_ENABLED {
            Ok(ShaderCompiler::Shaderc)
        } else {
            Err("shaderc support is not enabled in this build"@)
        }
    } else if n == "naga"@ || n == "naga-glsl"@ {
        Ok(ShaderCompiler::NagaGlsl)
    } else {
        Err("unknown shader compiler (expected shaderc or naga)"@)
    }
}

/// The colour-space handling a command-line value names.
pub open spec fn color_space_value(value: Seq<char>) -> Result<ColorSpaceMode, Seq<char>> {
    let t = trim(value);
    let n = lower(t);
    if t.len() == 0 {
        Err("color space must not be empty"@)
    } else if n == "auto"@ {
        Ok(ColorSpaceMode::Auto)
    } else if n == "gamma"@ || n == "srgb-off"@ || n == "shadertoy"@ {
        Ok(ColorSpaceMode::Gamma)
    } else if n == "linear"@ || n == "srgb"@ {
        Ok(ColorSpaceMode::Linear)
    } else {
        Err("unknown color space '"@ + n + "'; expected auto, gamma, or linear"@)
    }
}

/// The export format an output path's extension names (ASCII case ignored).
pub open spec fn export_format_value(path: Seq<char>) -> Result<ExportFormat, Seq<char>> {
    match extension(path) {
        None => Err("export path has no extension; expected .png"@),
        Some(e) => {
            let l = lower(e);
            if l == "png"@ {
                Ok(ExportFormat::Png)
            } else if l == "exr"@ {
                Err("EXR export is not implemented yet; use a .png path"@)
            } else {
                Err("unsupported export format '."@ + l + "'; expected .png"@)
            }
        },
    }
}

pub fn parse_antialias(value: &str) -> (r: Result<Antialiasing, String>)
    ensures
        outcome_is(r, antialias_value(value@)),
{
    let t = trimmed(value);
    if t.len() == 0 {
        return Err(lit("anti-alias mode must not be empty"));
    }
    let n = lower_chars(t.as_slice());
    let n = n.as_slice();
    if eq_str(n, "auto") || eq_str(n, "max") || eq_str(n, "default") {
        return Ok(Antialiasing::Auto);
    }
    if eq_str(n, "off") || eq_str(n, "none") || eq_str(n, "disable") || eq_str(n, "disabled")
        || eq_str(n, "0") {
        return Ok(Antialiasing::Off);
    }
    match parse_u32_exec(n) {
        None => {
            let ts = string_of(t.as_slice());
            Err(wrap_msg("invalid anti-alias sample count '", ts.as_str(), "'; use auto/off or 2/4/8/16"))
        },
        Some(k) => {
            if k == 0 || k == 1 {
                Ok(Antialiasing::Off)
            } else if k == 2 || k == 4 || k == 8 || k == 16 {
                Ok(Antialiasing::Samples(k))
            } else {
                let d = decimal_chars(k as u64);
                let ds = string_of(d.as_slice());
                Err(wrap_msg("unsupported sample count ", ds.as_str(), "; supported values are 2, 4, 8, or 16"))
            }
        },
    }
}

pub fn parse_shader_compiler(value: &str) -> (r: Result<ShaderCompiler, String>)
    ensures
        outcome_is(r, shader_compiler_value(value@)),
{
    let t = trimmed(value);
    if t.len() == 0 {
        return Err(lit("shader compiler must not be empty"));
    }
    let n = lower_chars(t.as_slice());
    let n = n.as_slice();
    if eq_str(n, "shaderc") {
        if SHADERC_ENABLED {
            Ok(ShaderCompiler::Shaderc)
        } else {
            Err(lit("shaderc support is not enabled in this build"))
        }
    } else if eq_str(n, "naga") || eq_str(n, "naga-glsl") {
        Ok(ShaderCompiler::NagaGlsl)
    } else {
        Err(lit("unknown shader compiler (expected shaderc or naga)"))
    }
}

pub fn parse_color_space(value: &str) -> (r: Result<ColorSpaceMode, String>)
    ensures
        outcome_is(r, color_space_value(value@)),
{
    let t = trimmed(value);
    if t.len() == 0 {
        return Err(lit("color space must not be empty"));
    }
    let n = lower_chars(t.as_slice());
    let n = n.as_slice();
    if eq_str(n, "auto") {
        Ok(ColorSpaceMode::Auto)
    } else if eq_str(n, "gamma") || eq_str(n, "srgb-off") || eq_str(n, "shadertoy") {
        Ok(ColorSpaceMode::Gamma)
    } else if eq_str(n, "linear") || eq_str(n, "srgb") {
        Ok(ColorSpaceMode::Linear)
    } else {
        let ns = string_of(n);
        Err(wrap_msg("unknown color space '", ns.as_str(), "'; expected auto, gamma, or linear"))
    }
}

pub fn parse_export_format(path: &str) -> (r: Result<ExportFormat, String>)
    ensures
        outcome_is(r, export_format_value(path@)),
{
    match extension_exec(path) {
        None => Err(lit("export path has no extension; expected .png")),
        Some(e) => {
            let l = lower_chars(e.as_slice());
            let l = l.as_slice();
            if eq_str(l, "png") {
                Ok(ExportFormat::Png)
            } else if eq_str(l, "exr") {
                Err(lit("EXR export is not implemented yet; use a .png path"))
            } else {
                let ls = string_of(l);
                Err(wrap_msg("unsupported export format '.", ls.as_str(), "'; expected .png"))
            }
        },
    }
}

} // verus!
