//! Errors that mandwm reports, each with a severity.

use vstd::prelude::*;

verus! {

/// How serious a reported error is.
#[derive(Debug, Clone, Copy, PartialEq, Eq, Structural)]
#[allow(non_camel_case_types)]
pub enum MandwmErrorLevel {
    CRITICAL,
    WARN,
    DEBUG,
}

/// An error message together with its severity.
#[derive(Debug)]
pub struct MandwmError {
    msg: String,
    level: MandwmErrorLevel,
}

impl MandwmError {
    /// The message that describes the error.
    pub closed spec fn spec_message(&self) -> Seq<char> {
        self.msg@
    }

    /// The severity of the error.
    pub closed spec fn spec_level(&self) -> MandwmErrorLevel {
        self.level
    }

    /// An error that stops mandwm.
    pub fn critical(message: String) -> (e: Self)
        ensures
            e.spec_message() == message@,
            e.spec_level() == MandwmErrorLevel::CRITICAL,
    {
        MandwmError { msg: message, level: MandwmErrorLevel::CRITICAL }
    }

    /// An error that mandwm reports and then carries on.
    pub fn warn(message: String) -> (e: Self)
        ensures
            e.spec_message() == message@,
            e.spec_level() == MandwmErrorLevel::WARN,
    {
        MandwmError { msg: message, level: MandwmErrorLevel::WARN }
    }

    /// An error that is only of interest while debugging.
    pub fn debug(message: String) -> (e: Self)
        ensures
            e.spec_message() == message@,
            e.spec_level() == MandwmErrorLevel::DEBUG,
    {
        MandwmError { msg: message, level: MandwmErrorLevel::DEBUG }
    }

    /// The message that describes the error.
    pub fn message(&self) -> (m: &String)
        ensures
            m@ == self.spec_message(),
    {
        &self.msg
    }

    /// The severity of the error.
    pub fn level(&self) -> (l: MandwmErrorLevel)
        ensures
            l == self.spec_level(),
    {
        self.level
    }
}

} // verus!
