//! The lambdash command line: its subcommands and option values.
use vstd::prelude::*;
use crate::renderer::options::{
    antialias_value, color_space_value, export_format_value, outcome_is, shader_compiler_value,
};
use crate::renderer::runtime::ExportFormat;
use crate::renderer::types::{Antialiasing, ColorSpaceMode, ShaderCompiler};
use crate::text::{
    chars_of, eq_str, lit, lower, lower_chars, parse_u32, parse_u32_exec, split_once_any, split_once_any_exec, string_of,
    trim, trim_chars, trimmed, wrap_msg,
};

verus! {

/// A subcommand.
#[derive(Debug, Clone, PartialEq, Eq)]
pub enum Command {
    /// Manage bundled defaults (shader packs, playlists, paths).
    Defaults(DefaultsCommand),
}

#[derive(Debug, Clone, PartialEq, Eq)]
pub struct DefaultsCommand {
    pub action: DefaultsAction,
}

#[derive(Debug, Clone, PartialEq, Eq)]
pub enum DefaultsAction {
    /// Print resolved directories for config, data, cache, and share roots.
    Where,
}

/// `--antialias`: see `antialias_value`.
pub fn parse_antialias(value: &str) -> (r: Result<Antialiasing, String>)
    ensures
        outcome_is(r, antialias_value(value@)),
{
    crate::renderer::options::parse_antialias(value)
}

/// `--shader-compiler`: see `shader_compiler_value`.
pub fn parse_shader_compiler(value: &str) -> (r: Result<ShaderCompiler, String>)
    ensures
        outcome_is(r, shader_compiler_value(value@)),
{
    crate::renderer::options::parse_shader_compiler(value)
}

/// `--color-space`: see `color_space_value`.
pub fn parse_color_space(value: &str) -> (r: Result<ColorSpaceMode, String>)
    ensures
        outcome_is(r, color_space_value(value@)),
{
    crate::renderer::options::parse_color_space(value)
}

/// The format of `--still-export PATH`, from the path's extension.
pub fn parse_export_format(path: &str) -> (r: Result<ExportFormat, String>)
    ensures
        outcome_is(r, export_format_value(path@)),
{
    crate::renderer::options::parse_export_format(path)
}

/// The size of `center:WIDTHxHEIGHT`.
pub open spec fn dimensions_value(value: Seq<char>) -> Result<(u32, u32), Seq<char>> {
    match split_once_any(value, seq!['x', 'X']) {
        None => Err("expected WIDTHxHEIGHT"@),
        Some((w, h)) => match parse_u32(trim(w)) {
            None => Err("invalid width in center dimensions"@),
            Some(width) => match parse_u32(trim(h)) {
                None => Err("invalid height in center dimensions"@),
                Some(height) => if width == 0 || height == 0 {
                    Err("center dimensions must be greater than zero"@)
                } else {
                    Ok((width, height))
                },
            },
        },
    }
}

/// See `dimensions_value`.
pub fn parse_dimensions(value: &str) -> (r: Result<(u32, u32), String>)
    ensures
        match dimensions_value(value@) {
            Ok(d) => r == Ok::<(u32, u32), String>(d),
            Err(e) => r matches Err(m) && m@ == e,
        },
{
    let v = chars_of(value);
    let seps = vec!['x', 'X'];
    proof {
        assert(seps@ =~= seq!['x', 'X']);
    }
    let (w, h) = match split_once_any_exec(v.as_slice(), seps.as_slice()) {
        None => {
            return Err(lit("expected WIDTHxHEIGHT"));
        },
        Some(p) => p,
    };
    let width = match parse_u32_exec(trim_chars(w.as_slice()).as_slice()) {
        None => {
            return Err(lit("invalid width in center dimensions"));
        },
        Some(x) => x,
    };
    let height = match parse_u32_exec(trim_chars(h.as_slice()).as_slice()) {
        None => {
            return Err(lit("invalid height in center dimensions"));
        },
        Some(x) => x,
    };
    if width == 0 || height == 0 {
        return Err(lit("center dimensions must be greater than zero"));
    }
    Ok((width, height))
}

/// A `--fill-method` value as far as it is not a fractional number: stretch,
/// center with a size, or tile with the text of its repeats, if given.
#[derive(Debug, Clone, PartialEq, Eq)]
pub enum FillChoiceOf<S> {
    Stretch,
    Center { content_width: u32, content_height: u32 },
    Tile { repeat: Option<S> },
}

pub type FillChoice = FillChoiceOf<String>;

impl View for FillChoiceOf<String> {
    type V = FillChoiceOf<Seq<char>>;

    open spec fn view(&self) -> FillChoiceOf<Seq<char>> {
        match self {
            FillChoiceOf::Stretch => FillChoiceOf::Stretch,
            FillChoiceOf::Center { content_width, content_height } => FillChoiceOf::Center {
                content_width: *content_width,
                content_height: *content_height,
            },
            FillChoiceOf::Tile { repeat } => FillChoiceOf::Tile {
                repeat: match repeat {
                    Some(r) => Some(r@),
                    None => None,
                },
            },
        }
    }
}

/// The mode of a fill value and what follows its first `:` or `=` (when
/// something does), trimmed; the mode in lower case.
pub open spec fn fill_parts(t: Seq<char>) -> (Seq<char>, Option<Seq<char>>) {
    match split_once_any(t, seq![':', '=']) {
        Some((m, rest)) => if trim(rest).len() > 0 {
            (lower(trim(m)), Some(trim(rest)))
        } else {
            (lower(t), None)
        },
        None => (lower(t), None),
    }
}

/// `stretch`, `center:WxH`, or `tile[:XxY]`, surrounding whitespace and
/// ASCII case of the mode ignored.
pub open spec fn fill_choice_value(value: Seq<char>) -> Result<FillChoiceOf<Seq<char>>, Seq<char>> {
    let t = trim(value);
    let (mode, rest) = fill_parts(t);
    if t.len() == 0 {
        Err("fill method must not be empty"@)
    } else if mode == "stretch"@ {
        Ok(FillChoiceOf::Stretch)
    } else if mode == "center"@ {
        match rest {
            None => Err("center fill requires dimensions (e.g. center:1920x1080)"@),
            Some(r) => match dimensions_value(r) {
                Ok((w, h)) => Ok(FillChoiceOf::Center { content_width: w, content_height: h }),
                Err(e) => Err(e),
            },
        }
    } else if mode == "tile"@ {
        Ok(FillChoiceOf::Tile { repeat: rest })
    } else {
        Err("unknown fill method '"@ + mode + "'; expected stretch, center:WxH, or tile[:XxY]"@)
    }
}

/// See `fill_choice_value`.
pub fn parse_fill_choice(value: &str) -> (r: Result<FillChoice, String>)
    ensures
        match fill_choice_value(value@) {
            Ok(c) => r matches Ok(x) && x@ == c,
            Err(e) => r matches Err(m) && m@ == e,
        },
{
    let t = trimmed(value);
    if t.len() == 0 {
        return Err(lit("fill method must not be empty"));
    }
    let seps = vec![':', '='];
    proof {
        assert(seps@ =~= seq![':', '=']);
    }
    let (mode, rest): (Vec<char>, Option<Vec<char>>) = match split_once_any_exec(t.as_slice(), seps.as_slice()) {
        Some((m, r)) => {
            let rt = trim_chars(r.as_slice());
            if rt.len() > 0 {
                (lower_chars(trim_chars(m.as_slice()).as_slice()), Some(rt))
            } else {
                (lower_chars(t.as_slice()), None)
            }
        },
        None => (lower_chars(t.as_slice()), None),
    };
    if eq_str(mode.as_slice(), "stretch") {
        Ok(FillChoiceOf::Stretch)
    } else if eq_str(mode.as_slice(), "center") {
        match rest {
            None => Err(lit("center fill requires dimensions (e.g. center:1920x1080)")),
            Some(r) => {
                let rs = string_of(r.as_slice());
                match parse_dimensions(rs.as_str()) {
                    Ok((w, h)) => Ok(FillChoiceOf::Center { content_width: w, content_height: h }),
                    Err(e) => Err(e),
                }
            },
        }
    } else if eq_str(mode.as_slice(), "tile") {
        Ok(FillChoiceOf::Tile {
            repeat: match rest {
                Some(r) => Some(string_of(r.as_slice())),
                None => None,
            },
        })
    } else {
        let ms = string_of(mode.as_slice());
        Err(wrap_msg("unknown fill method '", ms.as_str(), "'; expected stretch, center:WxH, or tile[:XxY]"))
    }
}

} // verus!
