//! Linux as the build target.
use vstd::prelude::*;

verus! {

/// The name shown for Linux.
pub fn get_platform_name() -> (name: &'static str)
    ensures
        name@ == seq!['L', 'i', 'n', 'u', 'x'],
{
    proof {
        reveal_strlit("Linux");
    }
    "Linux"
}

/// The line ending of CSV files on Linux: LF.
pub fn csv_line_ending() -> (ending: &'static str)
    ensures
        ending@ == seq!['\n'],
{
    proof {
        reveal_strlit("\n");
    }
    "\n"
}

} // verus!
