//! Names of the temporal functions of the evaluator.
use crate::text::str_equal;
use vstd::prelude::*;

verus! {

/// Which duration a `duration.*` function computes between two temporal values.
#[derive(Debug, Clone, Copy, PartialEq, Eq, Structural)]
pub enum DurationMode {
    Between,
    InMonths,
    InDays,
    InSeconds,
}

/// The duration function that a (lower-case) function name denotes, if any.
pub open spec fn duration_mode_of(name: Seq<char>) -> Option<DurationMode> {
    if name == "duration.between"@ {
        Some(DurationMode::Between)
    } else if name == "duration.inmonths"@ {
        Some(DurationMode::InMonths)
    } else if name == "duration.indays"@ {
        Some(DurationMode::InDays)
    } else if name == "duration.inseconds"@ {
        Some(DurationMode::InSeconds)
    } else {
        None
    }
}

/// The duration function that `function_name` denotes (see `duration_mode_of`).
pub fn duration_mode_from_name(function_name: &str) -> (r: Option<DurationMode>)
    ensures
        r == duration_mode_of(function_name@),
{
    if str_equal(function_name, "duration.between") {
        Some(DurationMode::Between)
    } else if str_equal(function_name, "duration.inmonths") {
        Some(DurationMode::InMonths)
    } else if str_equal(function_name, "duration.indays") {
        Some(DurationMode::InDays)
    } else if str_equal(function_name, "duration.inseconds") {
        Some(DurationMode::InSeconds)
    } else {
        None
    }
}

} // verus!
