//! Terminal styling. Narration is the section header that the user is meant to
//! read; the mechanical trace below it recedes.

use vstd::prelude::*;

verus! {

/// Bold bright white.
pub const HEADER: &'static str = "\x1b[1;97m";

/// Gray.
pub const MUTED: &'static str = "\x1b[90m";

/// Red.
pub const ERR: &'static str = "\x1b[31m";

/// Back to normal.
pub const RESET: &'static str = "\x1b[0m";

} // verus!
