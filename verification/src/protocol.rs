//! The link schemes that open the launcher.
//!
//! Each scheme has a key in the system's registry of link handlers. The
//! value of that key is the command that is run for a link.

use crate::text::{joined, same_text};
use vstd::prelude::*;

verus! {

/// The key under which the command for links of `scheme` is stored.
pub open spec fn command_key_spec(scheme: Seq<char>) -> Seq<char> {
    scheme + "\\shell\\open\\command"@
}

/// The command that runs the launcher at `exe` for a link: the link takes
/// the place of `%1`.
pub open spec fn handler_command_spec(exe: Seq<char>) -> Seq<char> {
    "\""@ + exe + "\" --player \"%1\""@
}

/// The schemes that open the launcher, in the order in which they are
/// registered.
pub fn handler_schemes() -> (schemes: Vec<&'static str>)
    ensures
        schemes@.len() == 2,
        schemes@[0]@ == "roblox"@,
        schemes@[1]@ == "roblox-player"@,
{
    let mut schemes: Vec<&'static str> = Vec::new();
    schemes.push("roblox");
    schemes.push("roblox-player");
    schemes
}

/// The key under which the command for links of `scheme` is stored.
pub fn command_key(scheme: &str) -> (key: String)
    ensures
        key@ == command_key_spec(scheme@),
{
    joined(scheme, "\\shell\\open\\command")
}

/// The command that runs the launcher at `exe` for a link.
pub fn handler_command(exe: &str) -> (command: String)
    ensures
        command@ == handler_command_spec(exe@),
{
    joined("\"", exe).concat("\" --player \"%1\"")
}

/// Whether the stored command has to be written: exactly where it is not
/// the wanted one already.
pub fn needs_update(stored: &str, wanted: &str) -> (update: bool)
    ensures
        update == (stored@ != wanted@),
{
    !same_text(stored, wanted)
}

} // verus!
