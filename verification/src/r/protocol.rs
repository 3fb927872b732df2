//! The lines that frame each response of the R session.

use vstd::prelude::*;

verus! {

/// Printed by R before the output of a command.
pub const BEGIN_MARKER: &'static str = "__RCONSOLE_BEGIN__";

/// Printed by R after the output of a command.
pub const END_MARKER: &'static str = "__RCONSOLE_END__";

/// Starts the line that carries the message of an R error.
pub const ERROR_MARKER: &'static str = "__RCONSOLE_ERROR__";

/// Starts the line that carries the path of a plot that R wrote.
pub const PLOT_MARKER: &'static str = "__RCONSOLE_PLOT__";

}
