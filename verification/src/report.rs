//! The lines that a run prints.
//!
//! Sizes come in as text: how a byte count is written out for a reader is not
//! decided here.

use vstd::prelude::*;
use vstd::string::StringExecFns;

verus! {

/// The line shown for one build directory in a dry run: its size, a space,
/// its path.
pub open spec fn shown_line(size: Seq<char>, path: Seq<char>) -> Seq<char> {
    size + " "@ + path
}

/// The closing line of a run, with the total that was or could be reclaimed.
pub open spec fn closing_line(total: Seq<char>) -> Seq<char> {
    "Space reclamed: "@ + total
}

/// Writes the line for one build directory in a dry run.
pub fn match_line(size: &str, path: &str) -> (line: String)
    ensures
        line@ == shown_line(size@, path@),
{
    let mut line = size.to_owned();
    line.append(" ");
    line.append(path);
    line
}

/// Writes the closing line of a run.
pub fn total_line(total: &str) -> (line: String)
    ensures
        line@ == closing_line(total@),
{
    let mut line = "Space reclamed: ".to_owned();
    line.append(total);
    line
}

} // verus!
