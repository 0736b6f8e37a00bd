//! The words of the command language.

use vstd::prelude::*;

verus! {

/// What the session prints before it reads a line.
pub const PROMPT: &'static str = ":: ";

/// Extend the route by the literals that follow.
pub const ACTIVATE_FACETS: &'static str = "+";

/// Show the facets.
pub const SHOW_FACETS: &'static str = "?";

/// Show the facet count.
pub const FACET_COUNT: &'static str = "#?";

/// Show the facet count under each facet.
pub const FACET_COUNTS: &'static str = "#??";

/// Show the number of answer sets.
pub const ANSWER_SET_COUNT: &'static str = "#!";

/// Show the number of answer sets under each facet.
pub const ANSWER_SET_COUNTS: &'static str = "#!!";

/// Show answer sets.
pub const ENUMERATE_SOLUTIONS: &'static str = "!";

/// Show answer sets, projected onto the facets.
pub const ENUMERATE_PROJECTED_SOLUTIONS: &'static str = "!*";

/// Show the route.
pub const SHOW_ROUTE: &'static str = "@";

/// Empty the route.
pub const CLEAR_ROUTE: &'static str = "--";

/// Take the last literal off the route.
pub const DEL_LAST: &'static str = "-";

/// Change the mode.
pub const CHANGE_MODE: &'static str = "'";

/// Show the mode.
pub const DISPLAY_MODE: &'static str = ":mode";

/// Propose the next step.
pub const PROPOSE_STEP: &'static str = "$";

/// Take the next step.
pub const TAKE_STEP: &'static str = "$$";

/// Show the program.
pub const SHOW_PROGRAM: &'static str = ":src";

/// Show the atoms.
pub const SHOW_ATOMS: &'static str = ":atoms";

/// Tell whether a text is an atom of the program.
pub const IS_ATOM: &'static str = ":isatom";

/// Sieve the atoms outside the cautious consequences, under projection.
pub const PROJECTED_SOE: &'static str = "!?soe";

/// Sieve the facets.
pub const SOE: &'static str = ":soe";

/// Declare a context, or take the present one back.
pub const CONTEXT: &'static str = ">";

/// Show the significance of facets for a literal.
pub const SIGNIFICANCE: &'static str = "%";

/// End the session.
pub const QUIT: &'static str = ":q";

/// Show the manual.
pub const MANUAL: &'static str = "man";

/// Begin a conditional loop.
pub const LOOP: &'static str = "\\";

/// Begin a comment.
pub const COMMENT: &'static str = "//";

} // verus!
