//! Thin wrappers over the `colored` crate's styling methods.
//!
//! Whether a call wraps its argument in escape sequences or returns it
//! unchanged depends on a process-wide switch (a `NO_COLOR` override and
//! terminal detection), so nothing is promised of the results.

use vstd::prelude::*;

use colored::Colorize;

verus! {

/// Relies on colored's `Colorize::bold`.
#[verifier::external_body]
pub(crate) fn bold(s: &str) -> String {
    s.bold().to_string()
}

/// Relies on colored's `Colorize::green`.
#[verifier::external_body]
pub(crate) fn green(s: &str) -> String {
    s.green().to_string()
}

/// Relies on colored's `Colorize::red`.
#[verifier::external_body]
pub(crate) fn red(s: &str) -> String {
    s.red().to_string()
}

/// Relies on colored's `Colorize::yellow`.
#[verifier::external_body]
pub(crate) fn yellow(s: &str) -> String {
    s.yellow().to_string()
}

/// Relies on colored's `Colorize::white`.
#[verifier::external_body]
pub(crate) fn white(s: &str) -> String {
    s.white().to_string()
}

/// Relies on colored's `Colorize::magenta`.
#[verifier::external_body]
pub(crate) fn magenta(s: &str) -> String {
    s.magenta().to_string()
}

/// Relies on colored's `Colorize::bright_black`.
#[verifier::external_body]
pub(crate) fn bright_black(s: &str) -> String {
    s.bright_black().to_string()
}

} // verus!
