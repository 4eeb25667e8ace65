//! The client side of mandwm: the bar state that an application keeps
//! before it talks to the daemon over dbus.

use vstd::prelude::*;
use crate::error::{MandwmError, MandwmErrorLevel};
use crate::segments::{set_primary, with_primary};

verus! {

/// The well-known dbus name under which mandwm is reached.
pub const DBUS_NAME: &'static str = "org.gale.mandwm";

/// Where an appended message goes in the bar.
#[derive(Debug, Clone, Copy, PartialEq, Eq, Structural)]
#[allow(non_camel_case_types)]
pub enum AppendTo {
    FIRST,
    NEXT,
    LAST,
    SHORTEST,
}

/// The bar as a client application sees it.
pub struct MandwmCore {
    pub dwm_bar_string: Vec<String>,
    pub delimiter: String,
}

impl Default for MandwmCore {
    /// An empty bar whose segments are separated by `" | "`.
    fn default() -> (core: Self)
        ensures
            core.dwm_bar_string@ == Seq::<String>::empty(),
            core.delimiter@ == " | "@,
    {
        MandwmCore { dwm_bar_string: Vec::new(), delimiter: String::from_str(" | ") }
    }
}

impl MandwmCore {
    /// The same core with its delimiter replaced.
    pub fn set_delimiter(self, delimiter: String) -> (core: Self)
        ensures
            core.delimiter == delimiter,
            core.dwm_bar_string == self.dwm_bar_string,
    {
        let mut core = self;
        core.delimiter = delimiter;
        core
    }

    /// Makes `message` the first segment of the bar.
    pub fn set_primary_string(&mut self, message: String)
        ensures
            final(self).dwm_bar_string@ == with_primary(old(self).dwm_bar_string@, message),
            final(self).delimiter == old(self).delimiter,
    {
        set_primary(&mut self.dwm_bar_string, message);
    }

    /// Appending is not offered on the client side yet: the bar is left as
    /// it is, wherever the message was meant to go.
    pub fn append(&mut self, place: AppendTo, message: String)
        ensures
            final(self).dwm_bar_string == old(self).dwm_bar_string,
            final(self).delimiter == old(self).delimiter,
    {
    }
}

/// A fresh client-side core: the default one, always with success.
pub fn setup_mandwm() -> (r: Result<MandwmCore, MandwmError>)
    ensures
        r is Ok,
        r matches Ok(core) ==> core.dwm_bar_string@.len() == 0 && core.delimiter@ == " | "@,
{
    Ok(MandwmCore::default())
}

/// The line by which a client announces a new primary string: the dbus name
/// of mandwm, a colon and a space, then the string.
pub fn primary_string_notice(primary: &str) -> (line: String)
    ensures
        line@ == DBUS_NAME@ + ": "@ + primary@,
{
    let mut line = String::from_str(DBUS_NAME);
    line.append(": ");
    line.append(primary);
    line
}

/// The error for a session bus that cannot be reached; `error` is the
/// bus's own description of the failure.
pub fn dbus_connect_error(error: &str) -> (e: MandwmError)
    ensures
        e.spec_message() == "Could not connect to dbus. Error: "@ + error@,
        e.spec_level() == MandwmErrorLevel::CRITICAL,
{
    let mut message = String::from_str("Could not connect to dbus. Error: ");
    message.append(error);
    MandwmError::critical(message)
}

/// The error for mandwm's bus name being refused; `error` is the bus's own
/// description of the failure.
pub fn dbus_request_name_error(error: &str) -> (e: MandwmError)
    ensures
        e.spec_message() == "Could not request name \""@ + DBUS_NAME@ + "\" from dbus. ERROR: "@ + error@,
        e.spec_level() == MandwmErrorLevel::CRITICAL,
{
    let mut message = String::from_str("Could not request name \"");
    message.append(DBUS_NAME);
    message.append("\" from dbus. ERROR: ");
    message.append(error);
    MandwmError::critical(message)
}

/// The error for mandwm's bus name not being given back; `error` is the
/// bus's own description of the failure. Only a warning: the client has
/// done its work by then.
pub fn dbus_release_name_error(error: &str) -> (e: MandwmError)
    ensures
        e.spec_message() == "Could not release name of "@ + DBUS_NAME@ + ". ERROR: "@ + error@,
        e.spec_level() == MandwmErrorLevel::WARN,
{
    let mut message = String::from_str("Could not release name of ");
    message.append(DBUS_NAME);
    message.append(". ERROR: ");
    message.append(error);
    MandwmError::warn(message)
}

} // verus!
