//! Start with Windows: the `Run` registry entry.

use vstd::prelude::*;

verus! {

/// The key that lists programs started at sign-in (under HKCU).
pub const RUN_KEY: &'static str = "Software\\Microsoft\\Windows\\CurrentVersion\\Run";

/// The name of this program's entry.
pub const VALUE_NAME: &'static str = "win-night-shift";

/// The command line of the entry: the executable path in double quotes.
pub fn run_command(exe: &str) -> (r: String)
    ensures
        r@ == "\""@ + exe@ + "\""@,
{
    let mut r = String::from_str("\"");
    r.append(exe);
    r.append("\"");
    r
}

} // verus!
