//! Requests that reach the dmenu manager over its TCP socket.

use vstd::prelude::*;

verus! {

/// A request to the dmenu manager.
pub enum DmenuCommand {
    /// Offer these entries in dmenu.
    Pipe(Vec<String>),
    /// Rename the menu.
    SetName(),
}

/// Why a request could not be understood.
#[derive(Debug, Clone, Copy, PartialEq, Eq, Structural)]
pub enum DmenuError {
    /// The buffer held no command that the manager knows.
    CouldNotParse,
}

impl DmenuError {
    /// The message that goes with the error.
    pub fn message(&self) -> (m: String)
        ensures
            m@ == "Could not parse commands."@,
    {
        String::from_str("Could not parse commands.")
    }
}

/// The commands that a received buffer holds. No command syntax is
/// recognised yet, so every buffer yields no command, and a buffer that
/// yields none is refused.
pub fn create_dmenu_commands(buffer: &[u8]) -> (r: Result<Vec<DmenuCommand>, DmenuError>)
    ensures
        r == Err::<Vec<DmenuCommand>, DmenuError>(DmenuError::CouldNotParse),
{
    let args: Vec<DmenuCommand> = Vec::new();
    if args.len() == 0 {
        Err(DmenuError::CouldNotParse)
    } else {
        Ok(args)
    }
}

} // verus!
