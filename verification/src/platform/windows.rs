//! Windows as the build target.
use vstd::prelude::*;

verus! {

/// The name shown for Windows.
pub fn get_platform_name() -> (name: &'static str)
    ensures
        name@ == seq!['W', 'i', 'n', 'd', 'o', 'w', 's'],
{
    proof {
        reveal_strlit("Windows");
    }
    "Windows"
}

/// The line ending of CSV files on Windows: CR LF.
pub fn csv_line_ending() -> (ending: &'static str)
    ensures
        ending@ == seq!['\r', '\n'],
{
    proof {
        reveal_strlit("\r\n");
    }
    "\r\n"
}

} // verus!
