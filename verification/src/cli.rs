//! The command-line front end's decision logic: which command a letter
//! selects. Running the commands is the caller's business.

use vstd::prelude::*;

verus! {

/// The commands the front end knows.
#[derive(Debug, Copy, Clone, PartialEq, Eq, Structural)]
pub enum Command {
    /// Build every source under the working tree.
    BuildAll,
}

/// Decides which command the letter `c` selects: only `b` is assigned;
/// anything else, letter or not, is rejected.
pub fn process_command(c: char) -> (r: Result<Command, String>)
    ensures
        c == 'b' <==> r is Ok,
        r is Ok ==> r->Ok_0 == Command::BuildAll,
        r is Err ==> r->Err_0@ == "Invalid command"@,
{
    if c < 'a' || c > 'z' {
        Err("Invalid command".to_owned())
    } else if c == 'b' {
        Ok(Command::BuildAll)
    } else {
        Err("Invalid command".to_owned())
    }
}

} // verus!
