//! How a wax11 single run chooses what it does with frames.
use vstd::prelude::*;
use crate::renderer::options::{export_format_value, outcome_is, parse_export_format};
use crate::renderer::runtime::ExportFormat;
use crate::text::lit;

verus! {

/// What a single run does with frames.
#[derive(Debug, Clone, Copy, PartialEq, Eq)]
pub enum PolicyChoice {
    /// Animate continuously.
    Animate,
    /// Draw one still frame.
    Still,
    /// Draw one frame and write it to a file of this format.
    Export(ExportFormat),
}

/// The choice from the command line: `--still-export PATH` exports (in the
/// format the path's extension names, or its refusal); else `--still` draws
/// one still; else the run animates, and a `--still-time` given without
/// either is refused.
pub open spec fn policy_choice_spec(still_export: Option<Seq<char>>, still: bool, still_time_given: bool) -> Result<
    PolicyChoice,
    Seq<char>,
> {
    match still_export {
        Some(p) => match export_format_value(p) {
            Ok(f) => Ok(PolicyChoice::Export(f)),
            Err(e) => Err(e),
        },
        None => if still {
            Ok(PolicyChoice::Still)
        } else if still_time_given {
            Err("--still-time requires --still or --still-export"@)
        } else {
            Ok(PolicyChoice::Animate)
        },
    }
}

/// See `policy_choice_spec`.
pub fn choose_render_policy(still_export: Option<&str>, still: bool, still_time_given: bool) -> (r: Result<
    PolicyChoice,
    String,
>)
    ensures
        outcome_is(
            r,
            policy_choice_spec(
                match still_export {
                    Some(p) => Some(p@),
                    None => None,
                },
                still,
                still_time_given,
            ),
        ),
{
    match still_export {
        Some(p) => match parse_export_format(p) {
            Ok(f) => Ok(PolicyChoice::Export(f)),
            Err(e) => Err(e),
        },
        None => if still {
            Ok(PolicyChoice::Still)
        } else if still_time_given {
            Err(lit("--still-time requires --still or --still-export"))
        } else {
            Ok(PolicyChoice::Animate)
        },
    }
}

} // verus!
