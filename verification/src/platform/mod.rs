//! The platform the logger was built for: its name in the header and the line
//! ending its CSV files use. `linux` and `windows` hold the two supported
//! targets; the functions here serve any other system.
use vstd::prelude::*;

pub mod linux;
pub mod windows;

verus! {

/// The name shown for a system other than Windows and Linux.
pub fn get_platform_name() -> (name: &'static str)
    ensures
        name@ == seq!['O', 't', 'h', 'e', 'r', ' ', 'O', 'S'],
{
    proof {
        reveal_strlit("Other OS");
    }
    "Other OS"
}

/// The line ending of CSV files on a system other than Windows and Linux: LF.
pub fn csv_line_ending() -> (ending: &'static str)
    ensures
        ending@ == seq!['\n'],
{
    proof {
        reveal_strlit("\n");
    }
    "\n"
}

} // verus!
