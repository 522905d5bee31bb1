//! When diagnostics are written.
use crate::config::Config;
use vstd::prelude::*;

verus! {

/// Whether debugging output is written: it is asked for, and diagnostics
/// would not land on the screen.
pub fn debug_enabled(config: &Config, diagnostics: bool) -> (r: bool)
    ensures
        r == (config@.debug && diagnostics),
{
    config.debug && diagnostics
}

/// The line that a debugging message puts into the diagnostics, if any.
pub fn write_debug<'a>(config: &Config, diagnostics: bool, message: &'a str) -> (r: Option<&'a str>)
    ensures
        r == (if config@.debug && diagnostics {
            Some(message)
        } else {
            None
        }),
{
    if debug_enabled(config, diagnostics) {
        Some(message)
    } else {
        None
    }
}

/// What the user is told when debugging is asked for and cannot be shown.
pub open spec fn suppressed_notice(debug: bool, diagnostics: bool) -> Option<Seq<char>> {
    if debug && !diagnostics {
        Some(
            "Debug logging is enabled, but stderr is attached to the terminal, so diagnostics are suppressed. Redirect stderr to a file to capture logs."@,
        )
    } else {
        None
    }
}

pub fn suppressed_debug_notice(config: &Config, diagnostics: bool) -> (r: Option<&'static str>)
    ensures
        match r {
            Some(text) => suppressed_notice(config@.debug, diagnostics) == Some(text@),
            None => suppressed_notice(config@.debug, diagnostics) is None,
        },
{
    if config.debug && !diagnostics {
        Some(
            "Debug logging is enabled, but stderr is attached to the terminal, so diagnostics are suppressed. Redirect stderr to a file to capture logs.",
        )
    } else {
        None
    }
}

/// The user is told that debugging output cannot be shown where it is asked for
/// and has no place to go, and only there.
pub proof fn law_suppressed_notice(debug: bool, diagnostics: bool)
    ensures
        suppressed_notice(debug, diagnostics) is Some <==> debug && !diagnostics,
{
}

} // verus!
