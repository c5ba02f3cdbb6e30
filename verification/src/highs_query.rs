//! What the solver knows about a model beyond its solution: the names it
//! gives the bounds in an irreducible infeasible subsystem, and the
//! subsystem itself.
use vstd::prelude::*;

use crate::format::Elapsed;

verus! {

/// The name of one of the solver's bound-status codes for a member of an
/// infeasible subsystem: `-1` dropped, `1` free, `2` lower, `3` upper, `4`
/// both, and a dash for anything else (`0` is in the subsystem, but not
/// because of a bound of its own).
pub open spec fn spec_bound_status(code: i32) -> Seq<char> {
    if code == -1 {
        "dropped"@
    } else if code == 1 {
        "free"@
    } else if code == 2 {
        "lower"@
    } else if code == 3 {
        "upper"@
    } else if code == 4 {
        "both"@
    } else {
        "\u{2014}"@
    }
}

/// The name of a bound-status code of the solver's infeasible subsystem.
pub fn bound_status(code: i32) -> (res: &'static str)
    ensures
        res@ == spec_bound_status(code),
{
    match code {
        -1 => "dropped",
        1 => "free",
        2 => "lower",
        3 => "upper",
        4 => "both",
        _ => "\u{2014}",
    }
}

/// The rows and column bounds that cannot hold together.
#[derive(Debug)]
pub struct Iis {
    /// The status the relaxed model solved to.
    pub status: String,
    /// `(constraint name, which of its bounds is implicated)`.
    pub rows: Vec<(String, &'static str)>,
    /// `(variable name, which of its bounds is implicated)`.
    pub cols: Vec<(String, &'static str)>,
    pub relaxed_integrality: usize,
    pub skipped_sos: usize,
    pub duration: Elapsed,
}

impl Iis {
    /// Whether the solver isolated a subsystem at all.
    pub fn is_empty(&self) -> (res: bool)
        ensures
            res == (self.rows@.len() == 0 && self.cols@.len() == 0),
    {
        self.rows.len() == 0 && self.cols.len() == 0
    }
}

} // verus!
